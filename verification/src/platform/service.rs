//! The background service as a unit of the user's systemd.
use crate::paths::is_absolute;
use crate::paths::parts_at;
use crate::paths::path_parts;
use crate::plugin_api::manifest::executable_mode;
use crate::plugin_api::manifest::Probe;
use crate::text::begins;
use crate::text::chars_of;
use crate::text::contains;
use crate::text::find_char;
use crate::text::holds;
use crate::text::index_of;
use crate::text::lines;
use crate::text::lines_of;
use crate::text::lower;
use crate::text::parts_of;
use crate::text::same_chars;
use crate::text::same_text;
use crate::text::starts_with;
use crate::text::string_of;
use crate::text::text_from_utf8;
use crate::text::to_ascii_lower;
use crate::text::trim;
use crate::text::trim_text;
use crate::text::utf8_error;
use crate::ui::labels::signed_decimal;
use crate::ui::settings::join_path;
use crate::ui::settings::joined;
use vstd::prelude::*;
use vstd::utf8::decode_utf8;
use vstd::utf8::valid_utf8;

verus! {

pub const UNIT_NAME: &'static str = "lan-mouse.service";

#[derive(Clone, Copy, Debug, PartialEq, Eq, Structural)]
pub struct ServiceStatus {
    pub installed: bool,
    pub running: bool,
    pub autostart: bool,
}

#[derive(Clone, Debug, PartialEq, Eq)]
#[allow(inconsistent_fields)]
pub enum ServiceError {
    Unsupported(String),
    InvalidBinary(String),
    Environment(String),
    Io(String),
    ManagerUnavailable(String),
    CommandFailed { operation: String, status: Option<i32>, message: String },
    InvalidResponse(String),
}

#[allow(inconsistent_fields)]
pub ghost enum ServiceFault {
    Unsupported(Seq<char>),
    InvalidBinary(Seq<char>),
    Environment(Seq<char>),
    Io(Seq<char>),
    ManagerUnavailable(Seq<char>),
    CommandFailed { operation: Seq<char>, status: Option<i32>, message: Seq<char> },
    InvalidResponse(Seq<char>),
}

impl View for ServiceError {
    type V = ServiceFault;

    open spec fn view(&self) -> ServiceFault {
        match *self {
            ServiceError::Unsupported(s) => ServiceFault::Unsupported(s@),
            ServiceError::InvalidBinary(s) => ServiceFault::InvalidBinary(s@),
            ServiceError::Environment(s) => ServiceFault::Environment(s@),
            ServiceError::Io(s) => ServiceFault::Io(s@),
            ServiceError::ManagerUnavailable(s) => ServiceFault::ManagerUnavailable(s@),
            ServiceError::CommandFailed { operation, status, message } => {
                ServiceFault::CommandFailed { operation: operation@, status, message: message@ }
            },
            ServiceError::InvalidResponse(s) => ServiceFault::InvalidResponse(s@),
        }
    }
}

pub open spec fn service_fault_text(f: ServiceFault) -> Seq<char> {
    match f {
        ServiceFault::Unsupported(s) => s,
        ServiceFault::InvalidBinary(s) => "invalid service binary: "@ + s,
        ServiceFault::Environment(s) => "cannot locate user systemd configuration: "@ + s,
        ServiceFault::Io(s) => "service filesystem operation failed: "@ + s,
        ServiceFault::ManagerUnavailable(s) => "systemd user manager is unavailable: "@ + s,
        ServiceFault::CommandFailed { operation, status, message } => "systemctl --user "@
            + operation + " failed (status "@ + (match status {
            Some(status) => signed_decimal(status as int),
            None => "unknown"@,
        }) + "): "@ + message,
        ServiceFault::InvalidResponse(s) => "systemd returned an invalid service status: "@ + s,
    }
}

fn said(front: &str, s: &str) -> (r: String)
    ensures
        r@ == front@ + s@,
{
    let mut r: String = front.to_owned();
    r.push_str(s);
    r
}

fn push_number(s: &mut String, n: i32)
    ensures
        final(s)@ == old(s)@ + signed_decimal(n as int),
{
    let ghost before = s@;
    if n < 0 {
        s.push_str("-");
        crate::text::push_decimal(s, (-(n as i64)) as u64);
    } else {
        crate::text::push_decimal(s, n as u64);
    }
    assert(s@ =~= before + signed_decimal(n as int));
}

impl ServiceError {
    /// What is said of the error.
    pub fn to_text(&self) -> (r: String)
        ensures
            r@ == service_fault_text(self@),
    {
        match self {
            ServiceError::Unsupported(s) => s.clone(),
            ServiceError::InvalidBinary(s) => said("invalid service binary: ", s.as_str()),
            ServiceError::Environment(s) => said(
                "cannot locate user systemd configuration: ",
                s.as_str(),
            ),
            ServiceError::Io(s) => said("service filesystem operation failed: ", s.as_str()),
            ServiceError::ManagerUnavailable(s) => said(
                "systemd user manager is unavailable: ",
                s.as_str(),
            ),
            ServiceError::CommandFailed { operation, status, message } => {
                let mut r: String = "systemctl --user ".to_owned();
                r.push_str(operation.as_str());
                r.push_str(" failed (status ");
                match status {
                    Some(status) => {
                        push_number(&mut r, *status);
                    },
                    None => {
                        r.push_str("unknown");
                    },
                }
                r.push_str("): ");
                r.push_str(message.as_str());
                r
            },
            ServiceError::InvalidResponse(s) => said(
                "systemd returned an invalid service status: ",
                s.as_str(),
            ),
        }
    }
}

// ---------------------------------------------------------------------------
// What systemd says
// ---------------------------------------------------------------------------

/// What the last line that names a property says of it.
pub open spec fn property(rows: Seq<Seq<char>>, name: Seq<char>) -> Option<Seq<char>>
    decreases rows.len(),
{
    if rows.len() == 0 {
        None
    } else {
        let row = rows.last();
        match index_of(row, '=') {
            Some(i) => if row.take(i) == name {
                Some(row.skip(i + 1))
            } else {
                property(rows.drop_last(), name)
            },
            None => property(rows.drop_last(), name),
        }
    }
}

/// A property that must be there and say something.
pub open spec fn required(rows: Seq<Seq<char>>, name: Seq<char>) -> Result<Seq<char>, ServiceFault> {
    match property(rows, name) {
        Some(value) => if value.len() > 0 {
            Ok(value)
        } else {
            Err(ServiceFault::InvalidResponse("missing "@ + name))
        },
        None => Err(ServiceFault::InvalidResponse("missing "@ + name)),
    }
}

/// The state of the service, from what systemd prints of the unit. That there is
/// no unit is a state, not an error.
pub open spec fn status_of(stdout: Seq<char>) -> Result<ServiceStatus, ServiceFault> {
    let rows = lines(stdout);
    let load = required(rows, "LoadState"@);
    let active = required(rows, "ActiveState"@);
    let unit_file = required(rows, "UnitFileState"@);
    if load is Err {
        Err(load->Err_0)
    } else if load->Ok_0 == "not-found"@ {
        Ok(ServiceStatus { installed: false, running: false, autostart: false })
    } else if active is Err {
        Err(active->Err_0)
    } else if unit_file is Err {
        Err(unit_file->Err_0)
    } else if load->Ok_0 == "error"@ || load->Ok_0 == "bad-setting"@ {
        Err(ServiceFault::InvalidResponse("LoadState="@ + load->Ok_0))
    } else {
        Ok(
            ServiceStatus {
                installed: true,
                running: active->Ok_0 == "active"@ || active->Ok_0 == "reloading"@,
                autostart: unit_file->Ok_0 == "enabled"@ || unit_file->Ok_0 == "enabled-runtime"@,
            },
        )
    }
}

fn front_of(v: &Vec<char>, n: usize) -> (r: Vec<char>)
    requires
        n <= v@.len(),
    ensures
        r@ == v@.take(n as int),
{
    let mut r: Vec<char> = Vec::new();
    let mut i: usize = 0;
    while i < n
        invariant
            i <= n <= v@.len(),
            r@ == v@.take(i as int),
        decreases n - i,
    {
        r.push(v[i]);
        i = i + 1;
        assert(r@ =~= v@.take(i as int));
    }
    r
}

fn back_of(v: &Vec<char>, n: usize) -> (r: Vec<char>)
    requires
        n <= v@.len(),
    ensures
        r@ == v@.skip(n as int),
{
    let mut r: Vec<char> = Vec::new();
    let mut i: usize = n;
    while i < v.len()
        invariant
            n <= i <= v@.len(),
            r@ == v@.subrange(n as int, i as int),
        decreases v@.len() - i,
    {
        r.push(v[i]);
        i = i + 1;
        assert(r@ =~= v@.subrange(n as int, i as int));
    }
    assert(r@ =~= v@.skip(n as int));
    r
}

fn find_property(rows: &Vec<Vec<char>>, name: &str) -> (r: Option<Vec<char>>)
    ensures
        match r {
            Some(value) => property(parts_of(rows@), name@) == Some(value@),
            None => property(parts_of(rows@), name@) is None,
        },
{
    let ghost all = parts_of(rows@);
    let wanted: Vec<char> = chars_of(name);
    let mut n: usize = rows.len();
    assert(all.take(n as int) =~= all);
    while n > 0
        invariant
            n <= rows@.len(),
            all == parts_of(rows@),
            wanted@ == name@,
            property(all, name@) == property(all.take(n as int), name@),
        decreases n,
    {
        assert(all.take(n as int).drop_last() =~= all.take(n - 1));
        assert(all.take(n as int).last() == rows@[n - 1]@);
        let row: &Vec<char> = &rows[n - 1];
        let _len: usize = row.len();
        match find_char(row.as_slice(), '=') {
            Some(i) => {
                if same_chars(front_of(row, i).as_slice(), wanted.as_slice()) {
                    return Some(back_of(row, i + 1));
                }
            },
            None => {},
        }
        n = n - 1;
    }
    None
}

/// A property that must be there and say something.
pub fn required_property(rows: &Vec<Vec<char>>, name: &str) -> (r: Result<String, ServiceError>)
    ensures
        match r {
            Ok(value) => required(parts_of(rows@), name@) == Ok::<Seq<char>, ServiceFault>(value@),
            Err(error) => required(parts_of(rows@), name@) == Err::<Seq<char>, ServiceFault>(
                error@,
            ),
        },
{
    match find_property(rows, name) {
        Some(value) => {
            if value.len() > 0 {
                return Ok(string_of(value.as_slice()));
            }
        },
        None => {},
    }
    Err(ServiceError::InvalidResponse(said("missing ", name)))
}

/// The state of the service, from what systemd prints of the unit.
pub fn parse_status(stdout: &str) -> (r: Result<ServiceStatus, ServiceError>)
    ensures
        match r {
            Ok(status) => status_of(stdout@) == Ok::<ServiceStatus, ServiceFault>(status),
            Err(error) => status_of(stdout@) == Err::<ServiceStatus, ServiceFault>(error@),
        },
{
    let rows: Vec<Vec<char>> = lines_of(chars_of(stdout).as_slice());
    let load: String = required_property(&rows, "LoadState")?;
    if same_text(load.as_str(), "not-found") {
        return Ok(ServiceStatus { installed: false, running: false, autostart: false });
    }
    let active: String = required_property(&rows, "ActiveState")?;
    let unit_file: String = required_property(&rows, "UnitFileState")?;
    if same_text(load.as_str(), "error") || same_text(load.as_str(), "bad-setting") {
        return Err(ServiceError::InvalidResponse(said("LoadState=", load.as_str())));
    }
    Ok(
        ServiceStatus {
            installed: true,
            running: same_text(active.as_str(), "active") || same_text(
                active.as_str(),
                "reloading",
            ),
            autostart: same_text(unit_file.as_str(), "enabled") || same_text(
                unit_file.as_str(),
                "enabled-runtime",
            ),
        },
    )
}

/// The state of the service, from the bytes that systemd prints of the unit;
/// `error` is what is said of bytes that are not UTF-8.
pub open spec fn status_in(stdout: Seq<u8>, error: Seq<char>) -> Result<
    ServiceStatus,
    ServiceFault,
> {
    if valid_utf8(stdout) {
        status_of(decode_utf8(stdout))
    } else {
        Err(ServiceFault::InvalidResponse("status was not UTF-8: "@ + error))
    }
}

/// The state of the service, from the text that systemd printed of the unit, or
/// from why it is none.
pub fn read_status(text: Result<String, String>) -> (r: Result<ServiceStatus, ServiceError>)
    ensures
        match r {
            Ok(status) => text is Ok && status_of(text->Ok_0@) == Ok::<ServiceStatus, ServiceFault>(
                status,
            ),
            Err(error) => match text {
                Ok(text) => status_of(text@) == Err::<ServiceStatus, ServiceFault>(error@),
                Err(text) => error@ == ServiceFault::InvalidResponse(
                    "status was not UTF-8: "@ + text@,
                ),
            },
        },
{
    match text {
        Ok(text) => parse_status(text.as_str()),
        Err(text) => Err(
            ServiceError::InvalidResponse(said("status was not UTF-8: ", text.as_str())),
        ),
    }
}

/// The state of the service, from the bytes that systemd prints of the unit.
pub fn query_status(stdout: Vec<u8>) -> (r: Result<ServiceStatus, ServiceError>)
    ensures
        match r {
            Ok(status) => status_in(stdout@, utf8_error(stdout@)) == Ok::<
                ServiceStatus,
                ServiceFault,
            >(status),
            Err(error) => status_in(stdout@, utf8_error(stdout@)) == Err::<
                ServiceStatus,
                ServiceFault,
            >(error@),
        },
{
    read_status(text_from_utf8(stdout))
}

/// The user's manager cannot be reached, as systemd's complaint shows.
pub open spec fn unavailable(message: Seq<char>) -> bool {
    let m = lower(message);
    holds(m, "failed to connect to bus"@) || holds(m, "user manager"@) && holds(m, "not running"@)
        || holds(m, "no medium found"@)
}

/// Whether the complaint shows that the user's manager cannot be reached.
pub fn manager_unavailable(message: &str) -> (r: bool)
    ensures
        r == unavailable(message@),
{
    let m: String = to_ascii_lower(message);
    contains(m.as_str(), "failed to connect to bus") || contains(m.as_str(), "user manager")
        && contains(m.as_str(), "not running") || contains(m.as_str(), "no medium found")
}

/// What a program left behind.
#[derive(Clone, Debug, PartialEq, Eq)]
pub struct Output {
    pub success: bool,
    pub status: Option<i32>,
    pub stdout: String,
    pub stderr: String,
}

/// What the program complained of: what it wrote as errors, else what it wrote.
pub open spec fn complaint(o: Output) -> Seq<char> {
    if trim(o.stderr@).len() > 0 {
        trim(o.stderr@)
    } else {
        trim(o.stdout@)
    }
}

pub open spec fn output_fault(operation: Seq<char>, o: Output) -> Option<ServiceFault> {
    if o.success {
        None
    } else if unavailable(complaint(o)) {
        Some(ServiceFault::ManagerUnavailable(complaint(o)))
    } else {
        Some(
            ServiceFault::CommandFailed { operation, status: o.status, message: complaint(o) },
        )
    }
}

/// Whether a program did what it was asked.
pub fn ensure_success(operation: &str, output: &Output) -> (r: Result<(), ServiceError>)
    ensures
        match r {
            Ok(_) => output_fault(operation@, *output) is None,
            Err(error) => output_fault(operation@, *output) == Some(error@),
        },
{
    if output.success {
        return Ok(());
    }
    let stderr: String = trim_text(output.stderr.as_str());
    let message: String = if stderr.as_str().unicode_len() > 0 {
        stderr
    } else {
        trim_text(output.stdout.as_str())
    };
    if manager_unavailable(message.as_str()) {
        Err(ServiceError::ManagerUnavailable(message))
    } else {
        Err(
            ServiceError::CommandFailed {
                operation: operation.to_owned(),
                status: output.status,
                message,
            },
        )
    }
}

/// What it means that the program could not be started.
pub fn command_start_error(operation: &str, not_found: bool, error: String) -> (e: ServiceError)
    ensures
        e@ == (if not_found {
            ServiceFault::ManagerUnavailable("systemctl was not found"@)
        } else {
            ServiceFault::CommandFailed { operation: operation@, status: None, message: error@ }
        }),
{
    if not_found {
        ServiceError::ManagerUnavailable("systemctl was not found".to_owned())
    } else {
        ServiceError::CommandFailed { operation: operation.to_owned(), status: None, message: error }
    }
}

// ---------------------------------------------------------------------------
// The unit
// ---------------------------------------------------------------------------

/// A control character.
pub open spec fn is_control(c: char) -> bool {
    c as u32 <= 0x1f || 0x7f <= c as u32 <= 0x9f
}

/// A character as it is written in a unit.
pub open spec fn escaped_char(c: char) -> Seq<char> {
    if c == '\\' {
        "\\\\"@
    } else if c == '"' {
        "\\\""@
    } else if c == '%' {
        "%%"@
    } else {
        seq![c]
    }
}

pub open spec fn escaped(s: Seq<char>) -> Seq<char>
    decreases s.len(),
{
    if s.len() == 0 {
        Seq::empty()
    } else {
        escaped(s.drop_last()) + escaped_char(s.last())
    }
}

/// A path as it is written in a unit, in quotes.
pub open spec fn quoted(s: Seq<char>) -> Seq<char> {
    "\""@ + escaped(s) + "\""@
}

/// A path as it is written in a unit. A control character cannot be.
pub fn escape_exec_start_path(path: &str) -> (r: Result<String, ServiceError>)
    ensures
        match r {
            Ok(s) => s@ == quoted(path@) && forall|i: int|
                0 <= i < path@.len() ==> !is_control(#[trigger] path@[i]),
            Err(error) => error@ == ServiceFault::InvalidBinary(
                "path contains a control character"@,
            ) && exists|i: int| 0 <= i < path@.len() && is_control(#[trigger] path@[i]),
        },
{
    let v: Vec<char> = chars_of(path);
    let mut s: String = "\"".to_owned();
    let ghost front = s@;
    let mut i: usize = 0;
    assert(v@.take(0) =~= Seq::<char>::empty());
    assert(s@ =~= front + escaped(v@.take(0)));
    while i < v.len()
        invariant
            i <= v@.len(),
            v@ == path@,
            front == "\""@,
            s@ == front + escaped(v@.take(i as int)),
            forall|j: int| 0 <= j < i ==> !is_control(#[trigger] path@[j]),
        decreases v@.len() - i,
    {
        let c: char = v[i];
        let u: u32 = c as u32;
        assert(v@.take(i + 1).drop_last() =~= v@.take(i as int));
        if u <= 0x1f || (0x7f <= u && u <= 0x9f) {
            assert(is_control(path@[i as int]));
            return Err(
                ServiceError::InvalidBinary("path contains a control character".to_owned()),
            );
        }
        if c == '\\' {
            s.push_str("\\\\");
        } else if c == '"' {
            s.push_str("\\\"");
        } else if c == '%' {
            s.push_str("%%");
        } else {
            s.push(c);
        }
        i = i + 1;
        assert(s@ =~= front + escaped(v@.take(i as int)));
    }
    assert(v@.take(i as int) =~= v@);
    s.push_str("\"");
    Ok(s)
}

/// A character of the text is a control character.
pub open spec fn has_control(s: Seq<char>) -> bool {
    exists|i: int| 0 <= i < s.len() && is_control(#[trigger] s[i])
}

/// The unit of the service, for a program as it is written in a unit.
pub open spec fn unit_text(program: Seq<char>) -> Seq<char> {
    "[Unit]\nDescription=Syntra background service\nAfter=graphical-session.target\nBindsTo=graphical-session.target\n\n[Service]\nExecStart="@
        + program
        + " daemon\nRestart=on-failure\nKillSignal=SIGINT\nTimeoutStopSec=15\n\n[Install]\nWantedBy=graphical-session.target\n"@
}

/// The unit of the service, for a program.
pub fn unit_contents(path: &str) -> (r: Result<String, ServiceError>)
    ensures
        match r {
            Ok(s) => !has_control(path@) && s@ == unit_text(quoted(path@)),
            Err(error) => has_control(path@) && error@ == ServiceFault::InvalidBinary(
                "path contains a control character"@,
            ),
        },
{
    let program: String = escape_exec_start_path(path)?;
    let mut s: String =
        "[Unit]\nDescription=Syntra background service\nAfter=graphical-session.target\nBindsTo=graphical-session.target\n\n[Service]\nExecStart=".to_owned();
    s.push_str(program.as_str());
    s.push_str(
        " daemon\nRestart=on-failure\nKillSignal=SIGINT\nTimeoutStopSec=15\n\n[Install]\nWantedBy=graphical-session.target\n",
    );
    Ok(s)
}

/// Where the unit is kept: below the directory for settings, or below the user's
/// own. A variable that is empty counts as none.
pub open spec fn unit_file(config: Option<Seq<char>>, home: Option<Seq<char>>) -> Option<Seq<char>> {
    let base = if config is Some && config->Some_0.len() > 0 {
        config
    } else if home is Some && home->Some_0.len() > 0 {
        Some(joined(home->Some_0, ".config"@, '/'))
    } else {
        None
    };
    match base {
        Some(base) => Some(joined(joined(base, "systemd/user"@, '/'), UNIT_NAME@, '/')),
        None => None,
    }
}

/// Where the unit is kept.
pub fn unit_path(config: Option<String>, home: Option<String>) -> (r: Result<String, ServiceError>)
    ensures
        match r {
            Ok(path) => unit_file(crate::history::chars(config), crate::history::chars(home))
                == Some(path@),
            Err(error) => unit_file(crate::history::chars(config), crate::history::chars(home))
                is None && error@ == ServiceFault::Environment(
                "neither XDG_CONFIG_HOME nor HOME is set"@,
            ),
        },
{
    let mut base: Option<String> = None;
    match config {
        Some(config) => {
            if config.as_str().unicode_len() > 0 {
                base = Some(config);
            }
        },
        None => {},
    }
    if base.is_none() {
        match home {
            Some(home) => {
                if home.as_str().unicode_len() > 0 {
                    base = Some(join_path(home, ".config", '/'));
                }
            },
            None => {},
        }
    }
    match base {
        Some(base) => Ok(join_path(join_path(base, "systemd/user", '/'), UNIT_NAME, '/')),
        None => Err(
            ServiceError::Environment("neither XDG_CONFIG_HOME nor HOME is set".to_owned()),
        ),
    }
}

// ---------------------------------------------------------------------------
// The program of the unit
// ---------------------------------------------------------------------------

/// A path into a directory that an AppImage mounts while it runs.
pub open spec fn ephemeral(path: Seq<char>) -> bool {
    let parts = path_parts(path);
    is_absolute(path) && parts.len() > 1 && parts[0] == "tmp"@ && begins(parts[1], ".mount_"@)
}

/// The name of the file at a path.
pub open spec fn name_at(path: Seq<char>) -> Seq<char> {
    let parts = path_parts(path);
    if parts.len() > 0 && parts.last() != ".."@ {
        parts.last()
    } else {
        Seq::empty()
    }
}

/// Whether a path leads into a directory that an AppImage mounts while it runs.
pub fn is_ephemeral_appimage_mount(path: &str) -> (r: bool)
    ensures
        r == ephemeral(path@),
{
    let v: Vec<char> = chars_of(path);
    if v.len() == 0 || v[0] != '/' {
        return false;
    }
    let parts: Vec<Vec<char>> = parts_at(path);
    let ghost models = path_parts(path@);
    assert(parts@.len() == models.len());
    if parts.len() < 2 {
        return false;
    }
    assert(parts@[0]@ == models[0] && parts@[1]@ == models[1]);
    same_chars(parts[0].as_slice(), chars_of("tmp").as_slice()) && starts_with(
        parts[1].as_slice(),
        chars_of(".mount_").as_slice(),
    )
}

/// A program that only shows the dashboard, and must not run as a service.
pub open spec fn is_preview(name: Seq<char>) -> bool {
    name == "live_preview"@ || name == "launch_smoke"@ || holds(name, "preview"@)
}

/// What is wrong with a program, from what was found at its path.
pub open spec fn binary_fault(path: Seq<char>, probe: Probe) -> Option<Seq<char>> {
    if is_preview(name_at(path)) {
        Some("preview/example binaries cannot own the production service"@)
    } else if !is_absolute(path) {
        Some("path must be absolute"@)
    } else {
        match probe {
            Probe::Unavailable(reason) => Some(path + ": "@ + reason@),
            Probe::Found { is_file, mode } => if !is_file {
                Some(path + " is not a regular file"@)
            } else if mode is Some && !executable_mode(mode->Some_0) {
                Some(path + " is not executable"@)
            } else {
                None
            },
        }
    }
}

/// What is wrong with a program, from what was found at its path.
pub fn validate_binary(path: &str, probe: &Probe) -> (r: Result<(), String>)
    ensures
        match r {
            Ok(_) => binary_fault(path@, *probe) is None,
            Err(text) => binary_fault(path@, *probe) == Some(text@),
        },
{
    let parts: Vec<Vec<char>> = parts_at(path);
    let ghost models = path_parts(path@);
    assert(parts@.len() == models.len());
    let name: String = if parts.len() > 0 && !same_chars(
        parts[parts.len() - 1].as_slice(),
        chars_of("..").as_slice(),
    ) {
        assert(models.last() == parts@.last()@);
        string_of(parts[parts.len() - 1].as_slice())
    } else {
        let s: String = String::new();
        assert(s@ =~= Seq::<char>::empty());
        assert(parts@.len() > 0 ==> models.last() == parts@.last()@);
        s
    };
    if same_text(name.as_str(), "live_preview") || same_text(name.as_str(), "launch_smoke")
        || contains(name.as_str(), "preview") {
        return Err("preview/example binaries cannot own the production service".to_owned());
    }
    let v: Vec<char> = chars_of(path);
    if v.len() == 0 || v[0] != '/' {
        return Err("path must be absolute".to_owned());
    }
    match probe {
        Probe::Unavailable(reason) => {
            let mut s: String = path.to_owned();
            s.push_str(": ");
            s.push_str(reason.as_str());
            Err(s)
        },
        Probe::Found { is_file, mode } => {
            if !*is_file {
                return Err(said(path, " is not a regular file"));
            }
            match mode {
                Some(mode) => if *mode & 0x49 == 0 {
                    return Err(said(path, " is not executable"));
                },
                None => {},
            }
            Ok(())
        },
    }
}

/// Which file is to be looked at before the service is installed: the program
/// itself, or the AppImage that it was started from; or why neither can be used.
pub open spec fn original_of(binary: Seq<char>, appimage: Option<Seq<char>>) -> Result<
    Seq<char>,
    Seq<char>,
> {
    if !ephemeral(binary) {
        Ok(binary)
    } else if appimage is None || appimage->Some_0.len() == 0 {
        Err(
            "the application is running from a temporary AppImage mount, but APPIMAGE does not identify the original file; relaunch the AppImage and install the service again"@,
        )
    } else if ephemeral(appimage->Some_0) {
        Err(
            "APPIMAGE points into a temporary .mount_ directory; relaunch the original AppImage file and install the service again"@,
        )
    } else {
        Ok(appimage->Some_0)
    }
}

/// Which file is to be looked at before the service is installed.
pub fn executable_to_probe(binary: &str, appimage: Option<&str>) -> (r: Result<
    String,
    ServiceError,
>)
    ensures
        ({
            let appimage = match appimage {
                Some(s) => Some(s@),
                None => None,
            };
            match r {
                Ok(path) => original_of(binary@, appimage) == Ok::<Seq<char>, Seq<char>>(path@),
                Err(error) => original_of(binary@, appimage) is Err && error@
                    == ServiceFault::InvalidBinary(original_of(binary@, appimage)->Err_0),
            }
        }),
{
    if !is_ephemeral_appimage_mount(binary) {
        return Ok(binary.to_owned());
    }
    match appimage {
        Some(original) => {
            if original.unicode_len() > 0 {
                if is_ephemeral_appimage_mount(original) {
                    return Err(
                        ServiceError::InvalidBinary(
                            "APPIMAGE points into a temporary .mount_ directory; relaunch the original AppImage file and install the service again".to_owned(),
                        ),
                    );
                }
                return Ok(original.to_owned());
            }
        },
        None => {},
    }
    Err(
        ServiceError::InvalidBinary(
            "the application is running from a temporary AppImage mount, but APPIMAGE does not identify the original file; relaunch the AppImage and install the service again".to_owned(),
        ),
    )
}

/// The program that the service runs, from what was found at the file that was
/// looked at, and where an AppImage really lies.
pub open spec fn program_of(
    binary: Seq<char>,
    appimage: Option<Seq<char>>,
    probe: Probe,
    canonical: Result<Seq<char>, Seq<char>>,
) -> Result<Seq<char>, Seq<char>> {
    match original_of(binary, appimage) {
        Err(text) => Err(text),
        Ok(path) => if !ephemeral(binary) {
            match binary_fault(path, probe) {
                Some(text) => Err(text),
                None => Ok(path),
            }
        } else {
            match binary_fault(path, probe) {
                Some(text) => Err(
                    "APPIMAGE does not identify a usable original AppImage ("@ + text
                        + "); relaunch the original file and install the service again"@,
                ),
                None => match canonical {
                    Err(text) => Err(
                        "cannot resolve original AppImage "@ + path + ": "@ + text,
                    ),
                    Ok(resolved) => if ephemeral(resolved) {
                        Err(
                            "the original AppImage resolves into a temporary .mount_ directory; move it to a stable location, relaunch it, and install the service again"@,
                        )
                    } else {
                        Ok(resolved)
                    },
                },
            }
        },
    }
}

pub open spec fn text_result(r: Result<String, String>) -> Result<Seq<char>, Seq<char>> {
    match r {
        Ok(s) => Ok(s@),
        Err(s) => Err(s@),
    }
}

/// The program that the service runs.
pub fn resolve_install_executable(
    binary: &str,
    appimage: Option<&str>,
    probe: &Probe,
    canonical: Result<String, String>,
) -> (r: Result<String, ServiceError>)
    ensures
        ({
            let appimage = match appimage {
                Some(s) => Some(s@),
                None => None,
            };
            let expected = program_of(binary@, appimage, *probe, text_result(canonical));
            match r {
                Ok(path) => expected == Ok::<Seq<char>, Seq<char>>(path@),
                Err(error) => expected is Err && error@ == ServiceFault::InvalidBinary(
                    expected->Err_0,
                ),
            }
        }),
{
    let path: String = executable_to_probe(binary, appimage)?;
    let checked: Result<(), String> = validate_binary(path.as_str(), probe);
    if !is_ephemeral_appimage_mount(binary) {
        return match checked {
            Ok(_) => Ok(path),
            Err(text) => Err(ServiceError::InvalidBinary(text)),
        };
    }
    match checked {
        Ok(_) => {},
        Err(text) => {
            let mut s: String = "APPIMAGE does not identify a usable original AppImage (".to_owned();
            s.push_str(text.as_str());
            s.push_str("); relaunch the original file and install the service again");
            return Err(ServiceError::InvalidBinary(s));
        },
    }
    match canonical {
        Err(text) => {
            let mut s: String = "cannot resolve original AppImage ".to_owned();
            s.push_str(path.as_str());
            s.push_str(": ");
            s.push_str(text.as_str());
            Err(ServiceError::InvalidBinary(s))
        },
        Ok(resolved) => {
            if is_ephemeral_appimage_mount(resolved.as_str()) {
                return Err(
                    ServiceError::InvalidBinary(
                        "the original AppImage resolves into a temporary .mount_ directory; move it to a stable location, relaunch it, and install the service again".to_owned(),
                    ),
                );
            }
            Ok(resolved)
        },
    }
}

/// The service never runs a program from a directory that an AppImage mounts
/// while it runs.
pub proof fn law_services_run_lasting_programs(
    binary: Seq<char>,
    appimage: Option<Seq<char>>,
    probe: Probe,
    canonical: Result<Seq<char>, Seq<char>>,
)
    requires
        program_of(binary, appimage, probe, canonical) is Ok,
    ensures
        !ephemeral(program_of(binary, appimage, probe, canonical)->Ok_0),
{
}

/// What is asked of systemd never names another program than the one that was
/// given: no two paths are written alike in a unit.
pub proof fn law_escaping_is_faithful(a: Seq<char>, b: Seq<char>)
    requires
        escaped(a) == escaped(b),
    ensures
        a == b,
    decreases a.len(),
{
    reveal_strlit("\\\\");
    reveal_strlit("\\\"");
    reveal_strlit("%%");
    if a.len() == 0 {
        if b.len() > 0 {
            assert(escaped_char(b.last()).len() > 0);
            assert(escaped(b).len() > 0);
        }
        assert(a =~= b);
    } else if b.len() == 0 {
        assert(escaped_char(a.last()).len() > 0);
        assert(escaped(a).len() > 0);
    } else {
        assert(escaped_char(a.last()).last() == a.last());
        assert(escaped_char(b.last()).last() == b.last());
        assert(escaped(a).last() == a.last());
        assert(escaped(b).last() == b.last());
        let n = escaped_char(a.last()).len();
        assert(escaped(a.drop_last()) =~= escaped(a).take(escaped(a).len() - n));
        assert(escaped(b.drop_last()) =~= escaped(b).take(escaped(b).len() - n));
        law_escaping_is_faithful(a.drop_last(), b.drop_last());
        assert(a =~= a.drop_last().push(a.last()));
        assert(b =~= b.drop_last().push(b.last()));
    }
}

} // verus!
