//! Which plugins are taken: what their manifest must say, and what must be
//! found where it points.
use crate::plugin_api::ApiError;
use crate::plugin_api::ApiFault;
use crate::plugin_api::Capabilities;
use crate::plugin_api::PROTOCOL_VERSION;
use crate::text::blank;
use crate::text::chars_of;
use crate::text::is_blank;
use crate::text::same_text;
use vstd::prelude::*;

verus! {

/// Manifest describing an installable out-of-process plugin.
#[derive(Debug, Clone, PartialEq, Eq)]
pub struct AdapterManifest {
    pub manifest_version: u32,
    pub protocol_version: u32,
    pub id: String,
    pub name: String,
    /// The path of the program, absolute or relative to the manifest.
    pub executable: String,
    pub args: Vec<String>,
    pub capabilities: Capabilities,
}

/// What was found at the path of a program.
#[derive(Debug, Clone, PartialEq, Eq)]
pub enum Probe {
    /// Nothing could be learnt of it; the text says why.
    Unavailable(String),
    /// A file or something else; where the system has them, its permissions.
    Found { is_file: bool, mode: Option<u32> },
}

/// A letter, a digit, a dot, a line or a dash.
pub open spec fn identifier_char(c: char) -> bool {
    'a' <= c <= 'z' || 'A' <= c <= 'Z' || '0' <= c <= '9' || c == '.' || c == '_' || c == '-'
}

/// Something is declared, no entry is blank, no two neighbours are the same, and
/// there is an operation.
pub open spec fn capabilities_stand(c: Capabilities) -> bool {
    &&& c.mime_types@.len() > 0
    &&& forall|i: int| 0 <= i < c.mime_types@.len() ==> !blank((#[trigger] c.mime_types@[i])@)
    &&& forall|i: int|
        0 < i < c.mime_types@.len() ==> c.mime_types@[i - 1]@ != (#[trigger] c.mime_types@[i])@
    &&& c.clipboard_read || c.paste
}

/// The first fault of a manifest.
pub open spec fn manifest_fault(m: AdapterManifest) -> Option<ApiFault> {
    if m.manifest_version != PROTOCOL_VERSION || m.protocol_version != PROTOCOL_VERSION {
        Some(ApiFault::InvalidManifest("unsupported manifest or protocol version"@))
    } else if m.id@.len() == 0 || m.name@.len() == 0 || m.executable@.len() == 0 || exists|i: int|
        0 <= i < m.id@.len() && !identifier_char(#[trigger] m.id@[i]) {
        Some(
            ApiFault::InvalidManifest(
                "id, name, and executable are required and id must be identifier-safe"@,
            ),
        )
    } else if !capabilities_stand(m.capabilities) {
        Some(
            ApiFault::InvalidManifest(
                "capabilities must advertise unique MIME types and an operation"@,
            ),
        )
    } else {
        None
    }
}

/// Some execution bit is set.
pub open spec fn executable_mode(mode: u32) -> bool {
    mode & 0x49 != 0
}

/// What is wrong with what was found at the path of a program.
pub open spec fn probe_fault(p: Probe) -> Option<ApiFault> {
    match p {
        Probe::Unavailable(reason) => Some(
            ApiFault::InvalidManifest("executable unavailable: "@ + reason@),
        ),
        Probe::Found { is_file, mode } => if !is_file {
            Some(ApiFault::InvalidManifest("executable is not a file"@))
        } else if mode is Some && !executable_mode(mode->Some_0) {
            Some(ApiFault::InvalidManifest("executable is not executable"@))
        } else {
            None
        },
    }
}

fn is_identifier(s: &str) -> (r: bool)
    ensures
        r == !(exists|i: int| 0 <= i < s@.len() && !identifier_char(#[trigger] s@[i])),
{
    let v: Vec<char> = chars_of(s);
    let mut i: usize = 0;
    while i < v.len()
        invariant
            v@ == s@,
            i <= v@.len(),
            forall|j: int| 0 <= j < i ==> identifier_char(#[trigger] s@[j]),
        decreases v@.len() - i,
    {
        let c: char = v[i];
        if !('a' <= c && c <= 'z' || 'A' <= c && c <= 'Z' || '0' <= c && c <= '9' || c == '.' || c
            == '_' || c == '-') {
            assert(!identifier_char(s@[i as int]));
            return false;
        }
        i = i + 1;
    }
    true
}

fn stands(c: &Capabilities) -> (r: bool)
    ensures
        r == capabilities_stand(*c),
{
    if c.mime_types.len() == 0 || !(c.clipboard_read || c.paste) {
        return false;
    }
    let mut i: usize = 0;
    while i < c.mime_types.len()
        invariant
            i <= c.mime_types@.len(),
            forall|j: int| 0 <= j < i ==> !blank((#[trigger] c.mime_types@[j])@),
            forall|j: int|
                0 < j < i ==> c.mime_types@[j - 1]@ != (#[trigger] c.mime_types@[j])@,
        decreases c.mime_types@.len() - i,
    {
        if is_blank(c.mime_types[i].as_str()) {
            return false;
        }
        if i > 0 && same_text(c.mime_types[i - 1].as_str(), c.mime_types[i].as_str()) {
            return false;
        }
        i = i + 1;
    }
    true
}

impl AdapterManifest {
    /// Validates what the manifest says.
    pub fn validate(&self) -> (r: Result<(), ApiError>)
        ensures
            match r {
                Ok(_) => manifest_fault(*self) is None,
                Err(error) => manifest_fault(*self) == Some(error@),
            },
    {
        if self.manifest_version != PROTOCOL_VERSION || self.protocol_version != PROTOCOL_VERSION {
            return Err(
                ApiError::InvalidManifest("unsupported manifest or protocol version".to_owned()),
            );
        }
        if self.id.as_str().unicode_len() == 0 || self.name.as_str().unicode_len() == 0
            || self.executable.as_str().unicode_len() == 0 || !is_identifier(self.id.as_str()) {
            return Err(
                ApiError::InvalidManifest(
                    "id, name, and executable are required and id must be identifier-safe".to_owned(),
                ),
            );
        }
        if !stands(&self.capabilities) {
            return Err(
                ApiError::InvalidManifest(
                    "capabilities must advertise unique MIME types and an operation".to_owned(),
                ),
            );
        }
        Ok(())
    }

    /// Validates this manifest and what was found at the path of its program,
    /// and returns the path.
    pub fn resolve_executable(&self, path: String, probe: Probe) -> (r: Result<String, ApiError>)
        ensures
            match r {
                Ok(resolved) => {
                    &&& manifest_fault(*self) is None
                    &&& probe_fault(probe) is None
                    &&& resolved == path
                },
                Err(error) => Some(error@) == (match manifest_fault(*self) {
                    Some(fault) => Some(fault),
                    None => probe_fault(probe),
                }),
            },
    {
        match self.validate() {
            Ok(_) => {},
            Err(error) => {
                return Err(error);
            },
        }
        match probe {
            Probe::Unavailable(reason) => {
                let mut text: String = "executable unavailable: ".to_owned();
                text.push_str(reason.as_str());
                Err(ApiError::InvalidManifest(text))
            },
            Probe::Found { is_file, mode } => {
                if !is_file {
                    return Err(ApiError::InvalidManifest("executable is not a file".to_owned()));
                }
                match mode {
                    Some(mode) => if mode & 0x49 == 0 {
                        return Err(
                            ApiError::InvalidManifest("executable is not executable".to_owned()),
                        );
                    },
                    None => {},
                }
                Ok(path)
            },
        }
    }
}

} // verus!
