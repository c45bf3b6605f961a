//! What the service and the installation promise.
use crate::paths::components;
use crate::paths::path_model;
use crate::paths::path_parts;
use crate::paths::with_slashes;
use crate::platform::install::application_name;
use crate::platform::install::chosen_of;
use crate::platform::install::copies_of;
use crate::platform::install::clipboard_plugin_name;
use crate::platform::install::daemon_name;
use crate::platform::install::fuse_plugin_name;
use crate::platform::install::Present;
use crate::platform::service::binary_fault;
use crate::platform::service::complaint;
use crate::platform::service::ephemeral;
use crate::platform::service::escaped;
use crate::platform::service::is_preview;
use crate::platform::service::name_at;
use crate::platform::service::output_fault;
use crate::platform::service::program_of;
use crate::platform::service::property;
use crate::platform::service::status_of;
use crate::platform::service::Output;
use crate::platform::service::ServiceError;
use crate::platform::service::ServiceFault;
use crate::platform::service::ServiceStatus;
use crate::platform::service_steps::installs;
use crate::platform::service_steps::uninstalls;
use crate::platform::service_steps::InstallStep;
use crate::platform::service_steps::Installed;
use crate::platform::service_steps::Removal;
use crate::platform::service_steps::UninstallStep;
use crate::platform::service_steps::Uninstalled;
use crate::plugin_api::manifest::Probe;
use crate::text::lemma_index_of;
use crate::text::lines;
use crate::text::split;
use crate::text::trim;
use crate::ui::settings::Host;
use vstd::prelude::*;

verus! {

/// A property has the value behind its name in the last row that names it.
pub proof fn law_properties_are_read(
    rows: Seq<Seq<char>>,
    name: Seq<char>,
    value: Seq<char>,
    i: int,
)
    requires
        0 <= i < rows.len(),
        !name.contains('='),
        rows[i] == name + seq!['='] + value,
        forall|j: int|
            i < j < rows.len() ==> !crate::text::begins(#[trigger] rows[j], name + seq!['=']),
    ensures
        property(rows, name) == Some(value),
    decreases rows.len(),
{
    let n = name.len() as int;
    let row = rows.last();
    if i == rows.len() - 1 {
        assert forall|j: int| 0 <= j < n implies row[j] != '=' by {
            assert(name.contains(name[j]));
        }
        lemma_index_of(row, '=', n);
        assert(row.take(n) =~= name);
        assert(row.skip(n + 1) =~= value);
    } else {
        assert(rows[rows.len() - 1] == row);
        match crate::text::index_of(row, '=') {
            Some(k) => {
                crate::text::lemma_index_found(row, '=', k);
                if row.take(k) == name {
                    assert(row.take(n + 1) =~= name + seq!['=']);
                    assert(crate::text::begins(row, name + seq!['=']));
                }
            },
            None => {},
        }
        assert forall|j: int| i < j < rows.drop_last().len() implies !crate::text::begins(
            #[trigger] rows.drop_last()[j],
            name + seq!['='],
        ) by {
            assert(rows[j] == rows.drop_last()[j]);
        }
        law_properties_are_read(rows.drop_last(), name, value, i);
    }
}

/// A service that the manager does not know is not installed; one that it knows is, and
/// runs where it is active or reloads, and starts by itself where its unit is enabled.
pub proof fn law_the_manager_is_believed(
    stdout: Seq<char>,
    load: Seq<char>,
    active: Seq<char>,
    unit: Seq<char>,
)
    requires
        property(lines(stdout), "LoadState"@) == Some(load),
        property(lines(stdout), "ActiveState"@) == Some(active),
        property(lines(stdout), "UnitFileState"@) == Some(unit),
        load.len() > 0,
        active.len() > 0,
        unit.len() > 0,
    ensures
        load == "not-found"@ ==> status_of(stdout) == Ok::<ServiceStatus, ServiceFault>(
            ServiceStatus { installed: false, running: false, autostart: false },
        ),
        load == "error"@ || load == "bad-setting"@ ==> status_of(stdout) is Err,
        load != "not-found"@ && load != "error"@ && load != "bad-setting"@ ==> (status_of(
            stdout,
        ) matches Ok(s) && {
            &&& s.installed
            &&& s.running <==> active == "active"@ || active == "reloading"@
            &&& s.autostart <==> unit == "enabled"@ || unit == "enabled-runtime"@
        }),
{
    reveal_strlit("not-found");
    reveal_strlit("error");
    reveal_strlit("bad-setting");
    assert("not-found"@[0] == 'n' && "error"@[0] == 'e' && "bad-setting"@[0] == 'b');
}

/// An answer without the state of the service is no answer.
pub proof fn law_missing_states_are_errors(stdout: Seq<char>)
    requires
        property(lines(stdout), "LoadState"@) is None,
    ensures
        status_of(stdout) is Err,
        status_of(stdout)->Err_0 is InvalidResponse,
{
}

/// A command that succeeded has no fault, whatever it wrote. One that failed has the
/// text that it wrote to say so, and the status with which it ended.
pub proof fn law_failed_commands_say_why(operation: Seq<char>, o: Output)
    ensures
        o.success <==> output_fault(operation, o) is None,
        trim(o.stderr@).len() > 0 ==> complaint(o) == trim(o.stderr@),
        trim(o.stderr@).len() == 0 ==> complaint(o) == trim(o.stdout@),
        output_fault(operation, o) matches Some(
            ServiceFault::CommandFailed { operation: op, status, message },
        ) ==> op == operation && status == o.status && message == complaint(o),
        output_fault(operation, o) matches Some(f) ==> f is CommandFailed || (f
            == ServiceFault::ManagerUnavailable(complaint(o))),
{
}

/// In a unit a backslash, a quote and a percent sign are written so that the manager
/// reads them as themselves, and everything else is written as it is.
pub proof fn law_paths_are_written_for_the_manager(s: Seq<char>, c: char)
    ensures
        escaped(s.push('%')) == escaped(s) + seq!['%', '%'],
        escaped(s.push('\\')) == escaped(s) + seq!['\\', '\\'],
        escaped(s.push('"')) == escaped(s) + seq!['\\', '"'],
        c != '%' && c != '\\' && c != '"' ==> escaped(s.push(c)) == escaped(s) + seq![c],
        escaped(Seq::empty()) == Seq::<char>::empty(),
{
    reveal_strlit("%%");
    reveal_strlit("\\\\");
    reveal_strlit("\\\"");
    assert("%%"@ =~= seq!['%', '%']);
    assert("\\\\"@ =~= seq!['\\', '\\']);
    assert("\\\""@ =~= seq!['\\', '"']);
    assert(s.push('%').drop_last() =~= s);
    assert(s.push('\\').drop_last() =~= s);
    assert(s.push('"').drop_last() =~= s);
    assert(s.push(c).drop_last() =~= s);
}

/// A service runs a program that is given by its whole path, is a file that can be
/// executed, and is no preview.
pub proof fn law_which_programs_a_service_runs(path: Seq<char>, probe: Probe)
    ensures
        binary_fault(path, probe) is None <==> {
            &&& path.len() > 0 && path[0] == '/'
            &&& !is_preview(name_at(path))
            &&& probe matches Probe::Found { is_file, mode } && is_file && (mode matches Some(m)
                ==> m & 0x49 != 0)
        },
{
}

/// The program of a service is the one that runs now, unless that lies in the mount of
/// an image: then it is the image, where it can be found and lies somewhere else.
pub proof fn law_services_run_this_program(
    binary: Seq<char>,
    appimage: Option<Seq<char>>,
    probe: Probe,
    canonical: Result<Seq<char>, Seq<char>>,
)
    ensures
        !ephemeral(binary) && binary_fault(binary, probe) is None ==> program_of(
            binary,
            appimage,
            probe,
            canonical,
        ) == Ok::<Seq<char>, Seq<char>>(binary),
        !ephemeral(binary) && binary_fault(binary, probe) is Some ==> program_of(
            binary,
            appimage,
            probe,
            canonical,
        ) is Err,
        ephemeral(binary) && (appimage matches Some(image) && image.len() > 0 && !ephemeral(image)
            && binary_fault(image, probe) is None) && (canonical matches Ok(path) && !ephemeral(
            path,
        )) ==> program_of(binary, appimage, probe, canonical) == canonical,
        ephemeral(binary) && appimage is None ==> program_of(binary, appimage, probe, canonical)
            is Err,
{
}

/// A service is taken away in this order: it is disabled, its unit goes, the manager
/// reads its units anew. The unit may be gone already; anything that fails ends it with
/// that failure.
pub proof fn law_services_are_taken_away_in_order(
    s: UninstallStep,
    done: Uninstalled,
    unit: Result<String, ServiceError>,
)
    requires
        uninstalls(s, done, unit),
    ensures
        done is Nothing ==> s is Disable,
        (done matches Uninstalled::Disabled(Ok(_))) && unit is Ok ==> (s matches
            UninstallStep::RemoveUnit(path) && path@ == unit->Ok_0@),
        done == Uninstalled::UnitRemoved(Removal::Removed) || done == Uninstalled::UnitRemoved(
            Removal::Missing,
        ) ==> s is Reload,
        (done matches Uninstalled::Reloaded(Ok(_))) ==> (s matches UninstallStep::Finish(Ok(_))),
        (done matches Uninstalled::Disabled(Err(_))) || (done matches Uninstalled::Reloaded(
            Err(_),
        )) || (done matches Uninstalled::UnitRemoved(Removal::Failed(_))) ==> (s matches
            UninstallStep::Finish(Err(_))),
{
}

/// A service is put in place in this order: the directory is made, the unit written, the
/// manager reads its units anew; anything that fails ends it.
pub proof fn law_services_are_put_in_place_in_order(
    s: InstallStep,
    done: Installed,
    program: Seq<char>,
)
    requires
        installs(s, done, program),
        forall|i: int| 0 <= i < program.len() ==> ' ' <= #[trigger] program[i] <= '~',
    ensures
        done is Nothing ==> s is MakeDirectory,
        (done matches Installed::DirectoryMade(Ok(_))) ==> (s matches InstallStep::WriteUnit(text)
            && crate::text::holds(text@, "ExecStart=\""@ + escaped(program) + "\" daemon\n"@)),
        (done matches Installed::UnitWritten(Ok(_))) ==> s is Reload,
        (done matches Installed::Reloaded(Ok(_))) ==> (s matches InstallStep::Finish(Ok(_))),
        (done matches Installed::DirectoryMade(Err(_))) || (done matches Installed::UnitWritten(
            Err(_),
        )) || (done matches Installed::Reloaded(Err(_))) ==> (s matches InstallStep::Finish(
            Err(_),
        )),
{
    if done matches Installed::DirectoryMade(Ok(_)) {
        assert(!crate::platform::service::has_control(program)) by {
            assert forall|i: int| 0 <= i < program.len() implies !crate::platform::service::is_control(
                #[trigger] program[i],
            ) by {
                assert(' ' <= program[i] <= '~');
            }
        }
        let front =
            "[Unit]\nDescription=Syntra background service\nAfter=graphical-session.target\nBindsTo=graphical-session.target\n\n[Service]\nExecStart="@;
        let back =
            " daemon\nRestart=on-failure\nKillSignal=SIGINT\nTimeoutStopSec=15\n\n[Install]\nWantedBy=graphical-session.target\n"@;
        reveal_strlit(
            "[Unit]\nDescription=Syntra background service\nAfter=graphical-session.target\nBindsTo=graphical-session.target\n\n[Service]\nExecStart=",
        );
        reveal_strlit(
            " daemon\nRestart=on-failure\nKillSignal=SIGINT\nTimeoutStopSec=15\n\n[Install]\nWantedBy=graphical-session.target\n",
        );
        reveal_strlit("ExecStart=\"");
        reveal_strlit("\" daemon\n");
        reveal_strlit("\"");
        let text = s->WriteUnit_0@;
        let part = "ExecStart=\""@ + escaped(program) + "\" daemon\n"@;
        let at = front.len() - 10;
        assert(text =~= front + ("\""@ + escaped(program) + "\""@) + back);
        assert(text.subrange(at, at + part.len()) =~= part);
        assert(crate::text::part_at(text, part, at));
    }
}

/// Installing copies the program and the service, and each plugin that is there with
/// what describes it; without the program or the service nothing is complete.
pub proof fn law_what_is_installed(host: Host, p: Present)
    ensures
        ({
            let (copies, missing) = copies_of(host, p);
            &&& missing is None <==> p.application && p.daemon
            &&& !p.application ==> missing == Some(application_name(host)) && copies.len() == 0
            &&& p.application && !p.daemon ==> missing == Some(daemon_name(host))
            &&& missing is None ==> {
                &&& copies.len() >= 2
                &&& copies[0] == (application_name(host), true)
                &&& copies[1] == (daemon_name(host), true)
                &&& p.clipboard_plugin ==> copies.contains((clipboard_plugin_name(host), true))
                &&& p.clipboard_plugin && p.clipboard_manifest ==> copies.contains(
                    (clipboard_plugin_name(host) + ".json"@, false),
                )
                &&& p.fuse_plugin ==> copies.contains((fuse_plugin_name(host), true))
                &&& p.fuse_plugin && p.fuse_manifest ==> copies.contains(
                    (fuse_plugin_name(host) + ".json"@, false),
                )
                &&& !p.clipboard_plugin && !p.fuse_plugin ==> copies.len() == 2
            }
        }),
{
    let (copies, missing) = copies_of(host, p);
    if missing is None {
        if p.clipboard_plugin {
            assert(copies[2] == (clipboard_plugin_name(host), true));
            if p.clipboard_manifest {
                assert(copies[3] == (clipboard_plugin_name(host) + ".json"@, false));
            }
        }
        if p.fuse_plugin {
            let at = 2 + crate::platform::install::plugin_copies(
                clipboard_plugin_name(host),
                p.clipboard_plugin,
                p.clipboard_manifest,
            ).len() as int;
            assert(copies[at] == (fuse_plugin_name(host), true));
            if p.fuse_manifest {
                assert(copies[at + 1] == (fuse_plugin_name(host) + ".json"@, false));
            }
        }
    }
}

/// A directory that was chosen is taken without the blanks around it; one of blanks
/// alone was not chosen.
pub proof fn law_chosen_directories_are_trimmed(text: Seq<char>)
    ensures
        trim(text).len() > 0 ==> chosen_of(Some(text)) == Some(trim(text)),
        trim(text).len() == 0 ==> chosen_of(Some(text)) is None,
        chosen_of(None) is None,
{
}

proof fn lemma_split_push(s: Seq<char>, name: Seq<char>, sep: char)
    requires
        !name.contains(sep),
    ensures
        split(s.push(sep) + name, sep) == split(s, sep).push(name),
    decreases name.len(),
{
    let all = s.push(sep) + name;
    if name.len() == 0 {
        assert(all =~= s.push(sep));
        assert(all.drop_last() =~= s);
        assert(name =~= Seq::<char>::empty());
    } else {
        let front = name.drop_last();
        assert(!front.contains(sep)) by {
            if front.contains(sep) {
                let i = choose|i: int| 0 <= i < front.len() && front[i] == sep;
                assert(name[i] == sep);
            }
        }
        lemma_split_push(s, front, sep);
        assert(all.drop_last() =~= s.push(sep) + front);
        assert(name.contains(name[name.len() - 1]));
        let parts = split(s, sep).push(front);
        assert(parts.drop_last() =~= split(s, sep));
        assert(front.push(name.last()) =~= name);
        assert(split(all, sep) =~= split(s, sep).push(name));
    }
}

/// The parts of a path are the names between its slashes: a name behind a directory is
/// one more part, and a slash or a dot is none.
pub proof fn law_names_are_parts(directory: Seq<char>, name: Seq<char>)
    requires
        !name.contains('/'),
        name.len() > 0,
        name != "."@,
    ensures
        path_parts(directory.push('/') + name) == path_parts(directory).push(name),
        path_parts(directory.push('/')) == path_parts(directory),
        path_parts(directory.push('/').push('.')) == path_parts(directory),
        path_parts(name) == seq![name],
{
    reveal_strlit(".");
    lemma_split_push(directory, name, '/');
    let parts = split(directory, '/');
    assert(parts.push(name).drop_last() =~= parts);
    let none = Seq::<char>::empty();
    lemma_split_push(directory, none, '/');
    assert(directory.push('/') + none =~= directory.push('/'));
    assert(parts.push(none).drop_last() =~= parts);
    let dot = seq!['.'];
    assert(!dot.contains('/'));
    lemma_split_push(directory, dot, '/');
    assert(directory.push('/') + dot =~= directory.push('/').push('.'));
    assert(dot =~= "."@);
    assert(parts.push(dot).drop_last() =~= parts);
    lemma_one_part(name);
    let one = seq![name];
    assert(one.drop_last() =~= Seq::<Seq<char>>::empty());
    let nothing = Seq::<Seq<char>>::empty();
    assert(components(nothing) =~= nothing);
    assert(one.last() == name);
    assert(components(one) == components(one.drop_last()).push(name));
    assert(components(one) =~= one);
}

proof fn lemma_one_part(name: Seq<char>)
    requires
        !name.contains('/'),
    ensures
        split(name, '/') == seq![name],
    decreases name.len(),
{
    if name.len() > 0 {
        let front = name.drop_last();
        assert(!front.contains('/')) by {
            if front.contains('/') {
                let i = choose|i: int| 0 <= i < front.len() && front[i] == '/';
                assert(name[i] == '/');
            }
        }
        lemma_one_part(front);
        assert(name.contains(name[name.len() - 1]));
        assert(front.push(name.last()) =~= name);
        assert(split(name, '/') =~= seq![name]);
    } else {
        assert(name =~= Seq::<char>::empty());
        assert(split(name, '/') =~= seq![name]);
    }
}

/// On Windows both slashes are one, and the case of a drive does not matter; elsewhere
/// a backslash is part of a name.
pub proof fn law_slashes_of_windows(a: Seq<char>, b: Seq<char>, path: Seq<char>)
    requires
        with_slashes(a) == with_slashes(b),
    ensures
        path_model(Host::Windows, a) == path_model(Host::Windows, b),
        path_model(Host::Windows, seq!['c', ':'] + path) == path_model(
            Host::Windows,
            seq!['C', ':'] + path,
        ),
        path.len() > 0 && !path.contains('/') && path != "."@ ==> path_model(
            Host::Linux,
            path,
        ).parts == seq![path],
{
    let x = seq!['c', ':'] + path;
    let y = seq!['C', ':'] + path;
    assert(with_slashes(x).skip(2) =~= with_slashes(path));
    assert(with_slashes(y).skip(2) =~= with_slashes(path));
    assert(with_slashes(x)[0] == 'c' && with_slashes(y)[0] == 'C');
    assert(with_slashes(x)[1] == ':' && with_slashes(y)[1] == ':');
    if path.len() > 0 && !path.contains('/') && path != "."@ {
        law_names_are_parts(Seq::empty(), path);
    }
}

/// A program whose path has a control character, wherever it stands, gets no unit.
pub proof fn law_control_characters_are_refused(s: InstallStep, program: Seq<char>, i: int)
    requires
        installs(s, Installed::DirectoryMade(Ok(())), program),
        0 <= i < program.len(),
        '\0' <= program[i] < ' ' || program[i] == '\u{7f}',
    ensures
        s matches InstallStep::Finish(Err(error)) && error@ is InvalidBinary,
{
    assert(crate::platform::service::is_control(program[i]));
}

} // verus!
