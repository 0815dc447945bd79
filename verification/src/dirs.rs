//! Where the files of a profile are.

use vstd::prelude::*;
use vstd::string::*;
use vstd::utf8::*;

use crate::error::{slice_text_of, Error, ErrorView};
use crate::percent::{escape, law_decoding_undoes_encoding, percent_encoded};
use crate::text::{bytes_copy, decimal, decimal_string};

verus! {

broadcast use vstd::string::group_string_axioms;

/// The byte of `/`.
pub const SLASH: u8 = 0x2f;

/// The mode of every directory: its owner may do everything, and nobody else anything.
pub const DIRECTORY_MODE: u32 = 0o700;

/// The directories that the platform gives a project of the current user.
#[derive(Clone, Debug, PartialEq, Eq)]
pub struct ProjectDirs {
    pub config_dir: Vec<u8>,
    pub cache_dir: Vec<u8>,
    pub data_dir: Vec<u8>,
    pub runtime_dir: Option<Vec<u8>>,
}

/// All that the place of a file depends on.
#[derive(Clone, Debug, PartialEq, Eq)]
pub struct Dirs {
    pub project: ProjectDirs,
    pub temp_dir: Vec<u8>,
    pub profile: String,
    pub uid: u32,
}

/// The name of the profile that the environment variable selects: the plain name where it is
/// unset or empty.
pub open spec fn profile_name(selected: Option<Seq<char>>) -> Seq<char> {
    match selected {
        Some(name) => if name.len() > 0 {
            "rbw-"@ + name
        } else {
            "rbw"@
        },
        None => "rbw"@,
    }
}

/// The name of the profile that the environment variable `RBW_PROFILE` selects.
pub fn profile(selected: Option<&str>) -> (res: String)
    ensures
        res@ == profile_name(slice_text_of(selected)),
        selected is None ==> res@ == "rbw"@,
        selected matches Some(name) ==> {
            &&& name@.len() == 0 ==> res@ == "rbw"@
            &&& name@.len() > 0 ==> res@ == "rbw-"@ + name@
        },
{
    match selected {
        Some(name) => if !name.is_empty() {
            "rbw-".to_owned().concat(name)
        } else {
            "rbw".to_owned()
        },
        None => "rbw".to_owned(),
    }
}

/// Profiles have different names, and none of them has the plain name.
pub proof fn law_profiles_are_told_apart(name: Seq<char>, other: Seq<char>)
    requires
        name.len() > 0,
        other.len() > 0,
    ensures
        profile_name(Some(name)) == profile_name(Some(other)) <==> name == other,
        profile_name(Some(name)) != profile_name(None),
        profile_name(Some(Seq::empty())) == profile_name(None),
        "rbw"@.is_prefix_of(profile_name(Some(name))),
{
    reveal_strlit("rbw-");
    reveal_strlit("rbw");
    assert("rbw-"@.len() == 4);
    assert("rbw"@.len() == 3);
    assert(profile_name(Some(name)).skip(4) =~= name);
    assert(profile_name(Some(other)).skip(4) =~= other);
    assert(profile_name(Some(name)).take(3) =~= "rbw"@);
}

/// Whether a project name is one that the platform's rules for directory names leave as it is:
/// ASCII without upper case and without white space.
pub open spec fn plain_name(name: Seq<char>) -> bool {
    forall|i: int|
        0 <= i < name.len() ==> {
            let c = #[trigger] name[i] as u32;
            0x21 <= c < 0x7f && !(0x41 <= c <= 0x5a)
        }
}

/// `directories::ProjectDirs::from` names the directories of a project by the home directory,
/// the user database and the environment of the process, so that nothing is said of where they
/// are; it gives nothing where there is no home directory. What is said is that a directory has
/// the project's name at its end, where the name is one that the crate leaves as it is: it
/// lowers the case of the others and drops their white space.
#[verifier::external_body]
fn project_dirs_from(qualifier: &str, organization: &str, application: &str) -> (res: Option<
    ProjectDirs,
>)
    ensures
        qualifier@.len() == 0 && organization@.len() == 0 && plain_name(application@) ==> (
        res matches Some(dirs) ==> {
            &&& encode_utf8(application@).is_suffix_of(dirs.config_dir@)
            &&& encode_utf8(application@).is_suffix_of(dirs.cache_dir@)
            &&& encode_utf8(application@).is_suffix_of(dirs.data_dir@)
            &&& dirs.runtime_dir matches Some(dir) ==> encode_utf8(application@).is_suffix_of(dir@)
        }),
{
    directories::ProjectDirs::from(qualifier, organization, application).map(
        |d| ProjectDirs {
            config_dir: d.config_dir().as_os_str().as_encoded_bytes().to_vec(),
            cache_dir: d.cache_dir().as_os_str().as_encoded_bytes().to_vec(),
            data_dir: d.data_dir().as_os_str().as_encoded_bytes().to_vec(),
            runtime_dir: d.runtime_dir().map(|p| p.as_os_str().as_encoded_bytes().to_vec()),
        },
    )
}

/// `rustix::process::getuid` gives the number of the user that the process runs for: nothing is
/// said of it.
#[verifier::external_body]
fn current_uid() -> (res: u32) {
    rustix::process::getuid().as_raw()
}

/// What the place of a file depends on, by the answer of the platform.
pub fn dirs_from(
    project: Option<ProjectDirs>,
    temp_dir: Vec<u8>,
    profile: String,
    uid: u32,
) -> (res: Result<Dirs, Error>)
    ensures
        res == match project {
            Some(project) => Ok(Dirs { project, temp_dir, profile, uid }),
            None => Err(Error::FailedToFindDataDirectory),
        },
{
    match project {
        Some(project) => Ok(Dirs { project, temp_dir, profile, uid }),
        None => Err(Error::FailedToFindDataDirectory),
    }
}

/// The directories of the profile that the environment variable `RBW_PROFILE` selects, for the
/// current user. `temp_dir` is the directory for temporary files.
pub fn project_dirs(selected: Option<&str>, temp_dir: Vec<u8>) -> (res: Result<Dirs, Error>)
    ensures
        match res {
            Ok(dirs) => {
                &&& dirs.profile@ == profile_name(slice_text_of(selected))
                &&& dirs.temp_dir == temp_dir
                &&& plain_name(dirs.profile@) ==> {
                    &&& encode_utf8(dirs.profile@).is_suffix_of(dirs.project.config_dir@)
                    &&& encode_utf8(dirs.profile@).is_suffix_of(dirs.project.cache_dir@)
                    &&& encode_utf8(dirs.profile@).is_suffix_of(dirs.project.data_dir@)
                    &&& dirs.project.runtime_dir matches Some(dir) ==> encode_utf8(
                        dirs.profile@,
                    ).is_suffix_of(dir@)
                }
            },
            Err(e) => e == Error::FailedToFindDataDirectory,
        },
{
    proof {
        reveal_strlit("");
    }
    let profile = profile(selected);
    let project = project_dirs_from("", "", profile.as_str());
    dirs_from(project, temp_dir, profile, current_uid())
}

/// A relative path below a directory.
pub open spec fn joined(dir: Seq<u8>, path: Seq<u8>) -> Seq<u8> {
    if dir.len() == 0 || dir.last() == SLASH {
        dir + path
    } else {
        dir.push(SLASH) + path
    }
}

/// A file below a directory, by its name.
pub open spec fn file_in(dir: Seq<u8>, name: Seq<char>) -> Seq<u8> {
    joined(dir, encode_utf8(name))
}

/// A path below a directory begins with the directory and ends with the path. Between them stands
/// one separator, unless the directory brings its own or is no more than the current one.
pub proof fn law_paths_are_below_their_directory(dir: Seq<u8>, path: Seq<u8>)
    ensures
        dir.is_prefix_of(joined(dir, path)),
        path.is_suffix_of(joined(dir, path)),
        dir.len() > 0 && dir.last() != 0x2f ==> {
            &&& joined(dir, path).len() == dir.len() + 1 + path.len()
            &&& joined(dir, path)[dir.len() as int] == 0x2f
        },
        dir.len() == 0 || dir.last() == 0x2f ==> joined(dir, path) == dir + path,
{
    let all = joined(dir, path);
    assert(all.take(dir.len() as int) =~= dir);
    assert(all.skip(all.len() - path.len()) =~= path);
}

/// A relative path below a directory.
fn join(dir: &Vec<u8>, name: &str) -> (res: Vec<u8>)
    requires
        encode_utf8(name@).len() > 0 ==> encode_utf8(name@)[0] != SLASH,
    ensures
        res@ == file_in(dir@, name@),
{
    let mut path = bytes_copy(dir.as_slice());
    if path.len() > 0 && path[path.len() - 1] != SLASH {
        path.push(SLASH);
    }
    path.extend_from_slice(name.as_bytes());
    assert(path@ =~= file_in(dir@, name@));
    path
}

impl Dirs {
    /// The directory for sockets and the like: the one that the platform gives, or else one
    /// among the temporary files, named after the profile and the user.
    pub open spec fn runtime(&self) -> Seq<u8> {
        match self.project.runtime_dir {
            Some(dir) => dir@,
            None => self.temp_dir@.push(SLASH) + encode_utf8(
                self.profile@ + "-"@ + decimal(self.uid as nat),
            ),
        }
    }
}

/// The directory of the configuration.
pub fn config_dir(dirs: &Dirs) -> (res: Vec<u8>)
    ensures
        res@ == dirs.project.config_dir@,
{
    bytes_copy(dirs.project.config_dir.as_slice())
}

/// The directory of what can be fetched again.
pub fn cache_dir(dirs: &Dirs) -> (res: Vec<u8>)
    ensures
        res@ == dirs.project.cache_dir@,
{
    bytes_copy(dirs.project.cache_dir.as_slice())
}

/// The directory of what is to be kept.
pub fn data_dir(dirs: &Dirs) -> (res: Vec<u8>)
    ensures
        res@ == dirs.project.data_dir@,
{
    bytes_copy(dirs.project.data_dir.as_slice())
}

/// The directory for sockets and the like.
pub fn runtime_dir(dirs: &Dirs) -> (res: Vec<u8>)
    ensures
        res@ == dirs.runtime(),
        dirs.project.runtime_dir matches Some(dir) ==> res@ == dir@,
        dirs.project.runtime_dir is None ==> res@ == dirs.temp_dir@ + encode_utf8("/"@)
            + encode_utf8(dirs.profile@ + "-"@ + decimal(dirs.uid as nat)),
{
    proof {
        reveal_strlit("/");
        is_ascii_chars_encode_utf8("/"@);
        assert(dirs.temp_dir@.push(SLASH) =~= dirs.temp_dir@ + encode_utf8("/"@));
    }
    match &dirs.project.runtime_dir {
        Some(dir) => bytes_copy(dir.as_slice()),
        None => {
            let mut name = dirs.profile.clone();
            name.append("-");
            let uid = decimal_string(dirs.uid as u64);
            name.append(uid.as_str());
            let mut path = bytes_copy(dirs.temp_dir.as_slice());
            path.push(SLASH);
            path.extend_from_slice(name.as_str().as_bytes());
            assert(path@ =~= dirs.runtime());
            path
        },
    }
}

/// A step of preparing a directory.
#[derive(Clone, Debug, PartialEq, Eq)]
pub enum DirStep {
    /// Create the directory, and those above it that are missing, with this mode.
    Create { path: Vec<u8>, mode: u32 },
    /// Give the directory this mode.
    SetMode { path: Vec<u8>, mode: u32 },
}

/// What a [`DirStep`] says.
#[verifier::ext_equal]
pub enum DirStepView {
    Create { path: Seq<u8>, mode: u32 },
    SetMode { path: Seq<u8>, mode: u32 },
}

impl View for DirStep {
    type V = DirStepView;

    open spec fn view(&self) -> DirStepView {
        match *self {
            DirStep::Create { path, mode } => DirStepView::Create { path: path@, mode },
            DirStep::SetMode { path, mode } => DirStepView::SetMode { path: path@, mode },
        }
    }
}

impl DirStep {
    /// The error that names the directory of a step that failed, for this reason.
    pub fn failed(self, message: String) -> (res: Error)
        ensures
            res@ == (ErrorView::CreateDirectory { file: self@.directory(), message: message@ }),
            res matches Error::CreateDirectory { file, message: told } && told@ == message@ && (
            self matches DirStep::Create { path, .. } ==> file@ == path@) && (
            self matches DirStep::SetMode { path, .. } ==> file@ == path@),
    {
        match self {
            DirStep::Create { path, .. } => Error::CreateDirectory { file: path, message },
            DirStep::SetMode { path, .. } => Error::CreateDirectory { file: path, message },
        }
    }
}

impl DirStepView {
    /// The directory that the step is about.
    pub open spec fn directory(self) -> Seq<u8> {
        match self {
            DirStepView::Create { path, .. } => path,
            DirStepView::SetMode { path, .. } => path,
        }
    }
}

/// The steps of preparing a directory. It is created with its mode, so that it is at no time
/// open to others, and its mode is then set as well, since it may have existed with another.
pub open spec fn prepared(path: Seq<u8>, mode: u32) -> Seq<DirStepView> {
    seq![DirStepView::Create { path, mode }, DirStepView::SetMode { path, mode }]
}

/// A list of steps by their views.
pub open spec fn step_views(steps: Seq<DirStep>) -> Seq<DirStepView> {
    steps.map_values(|step: DirStep| step@)
}

/// The steps of preparing a directory, in order: the first that fails ends it, with the error
/// that [`DirStep::failed`] gives.
pub fn create_dir_all_with_permissions(path: &[u8], mode: u32) -> (res: Vec<DirStep>)
    ensures
        step_views(res@) == prepared(path@, mode),
        res@.len() == 2,
        res@[0] matches DirStep::Create { path: at, mode: given } && at@ == path@ && given == mode,
        res@[1] matches DirStep::SetMode { path: at, mode: given } && at@ == path@ && given == mode,
{
    let mut steps: Vec<DirStep> = Vec::new();
    steps.push(DirStep::Create { path: bytes_copy(path), mode });
    steps.push(DirStep::SetMode { path: bytes_copy(path), mode });
    assert(step_views(steps@) =~= prepared(path@, mode));
    steps
}

/// The steps of preparing the directories that files are written to, in order: the first that
/// fails ends it, with the error that [`DirStep::failed`] gives.
pub fn make_all(dirs: &Dirs) -> (res: Vec<DirStep>)
    ensures
        step_views(res@) == prepared(dirs.project.cache_dir@, DIRECTORY_MODE) + prepared(
            dirs.runtime(),
            DIRECTORY_MODE,
        ) + prepared(dirs.project.data_dir@, DIRECTORY_MODE),
        res@.len() == 6,
        res@[0] matches DirStep::Create { path, mode } && path@ == dirs.project.cache_dir@
            && mode == 0o700,
        res@[1] matches DirStep::SetMode { path, mode } && path@ == dirs.project.cache_dir@
            && mode == 0o700,
        res@[2] matches DirStep::Create { path, mode } && path@ == dirs.runtime() && mode == 0o700,
        res@[3] matches DirStep::SetMode { path, mode } && path@ == dirs.runtime() && mode == 0o700,
        res@[4] matches DirStep::Create { path, mode } && path@ == dirs.project.data_dir@
            && mode == 0o700,
        res@[5] matches DirStep::SetMode { path, mode } && path@ == dirs.project.data_dir@
            && mode == 0o700,
{
    let mut steps = create_dir_all_with_permissions(cache_dir(dirs).as_slice(), DIRECTORY_MODE);
    let ghost first = steps@;
    let mut more = create_dir_all_with_permissions(runtime_dir(dirs).as_slice(), DIRECTORY_MODE);
    let ghost second = more@;
    steps.append(&mut more);
    let mut last = create_dir_all_with_permissions(data_dir(dirs).as_slice(), DIRECTORY_MODE);
    let ghost third = last@;
    steps.append(&mut last);
    assert(steps@ =~= first + second + third);
    assert(step_views(steps@) =~= step_views(first) + step_views(second) + step_views(third));
    steps
}

/// The configuration file.
pub fn config_file(dirs: &Dirs) -> (res: Vec<u8>)
    ensures
        res@ == file_in(dirs.project.config_dir@, "config.json"@),
        res@ == joined(dirs.project.config_dir@, encode_utf8("config.json"@)),
{
    proof {
        reveal_strlit("config.json");
        is_ascii_chars_encode_utf8("config.json"@);
    }
    join(&config_dir(dirs), "config.json")
}

/// The file that holds the number of the agent's process.
pub fn pid_file(dirs: &Dirs) -> (res: Vec<u8>)
    ensures
        res@ == file_in(dirs.runtime(), "pidfile"@),
        res@ == joined(dirs.runtime(), encode_utf8("pidfile"@)),
{
    proof {
        reveal_strlit("pidfile");
        is_ascii_chars_encode_utf8("pidfile"@);
    }
    join(&runtime_dir(dirs), "pidfile")
}

/// The file that the agent's output goes to.
pub fn agent_stdout_file(dirs: &Dirs) -> (res: Vec<u8>)
    ensures
        res@ == file_in(dirs.project.data_dir@, "agent.out"@),
        res@ == joined(dirs.project.data_dir@, encode_utf8("agent.out"@)),
{
    proof {
        reveal_strlit("agent.out");
        is_ascii_chars_encode_utf8("agent.out"@);
    }
    join(&data_dir(dirs), "agent.out")
}

/// The file that the agent's error output goes to.
pub fn agent_stderr_file(dirs: &Dirs) -> (res: Vec<u8>)
    ensures
        res@ == file_in(dirs.project.data_dir@, "agent.err"@),
        res@ == joined(dirs.project.data_dir@, encode_utf8("agent.err"@)),
{
    proof {
        reveal_strlit("agent.err");
        is_ascii_chars_encode_utf8("agent.err"@);
    }
    join(&data_dir(dirs), "agent.err")
}

/// The file that holds the identifier of this device.
pub fn device_id_file(dirs: &Dirs) -> (res: Vec<u8>)
    ensures
        res@ == file_in(dirs.project.data_dir@, "device_id"@),
        res@ == joined(dirs.project.data_dir@, encode_utf8("device_id"@)),
{
    proof {
        reveal_strlit("device_id");
        is_ascii_chars_encode_utf8("device_id"@);
    }
    join(&data_dir(dirs), "device_id")
}

/// The socket that the agent listens on.
pub fn socket_file(dirs: &Dirs) -> (res: Vec<u8>)
    ensures
        res@ == file_in(dirs.runtime(), "socket"@),
        res@ == joined(dirs.runtime(), encode_utf8("socket"@)),
{
    proof {
        reveal_strlit("socket");
        is_ascii_chars_encode_utf8("socket"@);
    }
    join(&runtime_dir(dirs), "socket")
}

/// The socket that the agent serves SSH keys on.
pub fn ssh_agent_socket_file(dirs: &Dirs) -> (res: Vec<u8>)
    ensures
        res@ == file_in(dirs.runtime(), "ssh-agent-socket"@),
        res@ == joined(dirs.runtime(), encode_utf8("ssh-agent-socket"@)),
{
    proof {
        reveal_strlit("ssh-agent-socket");
        is_ascii_chars_encode_utf8("ssh-agent-socket"@);
    }
    join(&runtime_dir(dirs), "ssh-agent-socket")
}

/// The bytes that a server's name keeps in a file name. Control characters, bytes that are not
/// ASCII, the separators `/` and `:` and the percent sign are escaped.
pub open spec fn path_byte(b: u8) -> bool {
    0x20 <= b < 0x7f && b != SLASH && b != 0x25 && b != 0x3a
}

/// A server's name as part of a file name.
pub open spec fn path_encoded(server: Seq<char>) -> Seq<char> {
    percent_encoded(encode_utf8(server), |b: u8| path_byte(b))
}

/// The name of the file that holds the vault of an account.
pub open spec fn db_name(server: Seq<char>, email: Seq<char>) -> Seq<char> {
    path_encoded(server) + ":"@ + email + ".json"@
}

/// A server's name as part of a file name.
fn path_encode(server: &str) -> (res: String)
    ensures
        res@ == path_encoded(server@),
{
    let bytes = server.as_bytes();
    let ghost keep = |b: u8| path_byte(b);
    let mut out = String::new();
    let mut i: usize = 0;
    assert(bytes@.skip(0) =~= bytes@);
    while i < bytes.len()
        invariant
            i <= bytes.len(),
            keep == (|b: u8| path_byte(b)),
            percent_encoded(bytes@, keep) == out@ + percent_encoded(bytes@.skip(i as int), keep),
        decreases bytes.len() - i,
    {
        let b: u8 = bytes[i];
        let ghost before = out@;
        if 0x20 <= b && b < 0x7f && b != SLASH && b != 0x25 && b != 0x3a {
            out.push(b as char);
        } else {
            out.append(percent_encoding::percent_encode_byte(b));
        }
        assert(bytes@.skip(i as int).skip(1) =~= bytes@.skip(i + 1));
        assert(before + percent_encoded(bytes@.skip(i as int), keep) =~= out@ + percent_encoded(
            bytes@.skip(i + 1),
            keep,
        ));
        i = i + 1;
    }
    assert(out@ + percent_encoded(bytes@.skip(i as int), keep) =~= out@);
    out
}

/// The file that holds the vault of an account on a server.
pub fn db_file(dirs: &Dirs, server: &str, email: &str) -> (res: Vec<u8>)
    ensures
        res@ == file_in(dirs.project.cache_dir@, db_name(server@, email@)),
        res@ == joined(
            dirs.project.cache_dir@,
            encode_utf8(path_encoded(server@) + ":"@ + email@ + ".json"@),
        ),
{
    let mut name = path_encode(server);
    name.append(":");
    name.append(email);
    name.append(".json");
    proof {
        lemma_db_name_is_relative(server@, email@);
    }
    join(&cache_dir(dirs), name.as_str())
}

/// The characters of an encoded server's name: ASCII, and neither `/` nor `:`.
proof fn lemma_path_characters(bytes: Seq<u8>, i: int)
    requires
        0 <= i < percent_encoded(bytes, |b: u8| path_byte(b)).len(),
    ensures
        ({
            let c = percent_encoded(bytes, |b: u8| path_byte(b))[i] as u32;
            0x20 <= c < 0x7f && c != 0x2f && c != 0x3a
        }),
    decreases bytes.len(),
{
    let keep = |b: u8| path_byte(b);
    if bytes.len() > 0 {
        let head = if keep(bytes[0]) {
            seq![bytes[0] as char]
        } else {
            escape(bytes[0])
        };
        if i >= head.len() {
            lemma_path_characters(bytes.skip(1), i - head.len());
        }
    }
}

/// The name of a server that is made of ASCII characters other than control characters, the
/// separators and the percent sign stands in a file name as it is.
pub proof fn law_plain_server_names_stay(server: Seq<char>)
    requires
        forall|i: int|
            0 <= i < server.len() ==> ' ' <= #[trigger] server[i] <= '~' && server[i] != '/'
                && server[i] != ':' && server[i] != '%',
    ensures
        path_encoded(server) == server,
{
    is_ascii_chars_encode_utf8(server);
    let bytes = encode_utf8(server);
    let keep = |b: u8| path_byte(b);
    assert forall|i: int| 0 <= i < bytes.len() implies keep(#[trigger] bytes[i]) by {
        assert(bytes[i] == server[i] as u8);
    }
    lemma_kept_bytes(bytes, keep);
    assert(percent_encoded(bytes, keep) =~= server);
}

/// Bytes that are all kept are encoded as themselves.
proof fn lemma_kept_bytes(bytes: Seq<u8>, keep: spec_fn(u8) -> bool)
    requires
        forall|i: int| 0 <= i < bytes.len() ==> keep(#[trigger] bytes[i]),
    ensures
        percent_encoded(bytes, keep).len() == bytes.len(),
        forall|i: int|
            0 <= i < bytes.len() ==> percent_encoded(bytes, keep)[i] == (#[trigger] bytes[i])
                as char,
    decreases bytes.len(),
{
    if bytes.len() > 0 {
        let rest = bytes.skip(1);
        assert(forall|i: int| 0 <= i < rest.len() ==> rest[i] == bytes[i + 1]);
        lemma_kept_bytes(rest, keep);
        assert forall|i: int| 0 <= i < bytes.len() implies percent_encoded(bytes, keep)[i] == (
        #[trigger] bytes[i]) as char by {
            if i > 0 {
                assert(bytes[i] == rest[i - 1]);
            }
        }
    }
}

/// The files that the agent keeps in one directory are different files.
pub proof fn law_agent_files_do_not_clash(dir: Seq<u8>)
    ensures
        file_in(dir, "pidfile"@) != file_in(dir, "socket"@),
        file_in(dir, "pidfile"@) != file_in(dir, "ssh-agent-socket"@),
        file_in(dir, "socket"@) != file_in(dir, "ssh-agent-socket"@),
        file_in(dir, "agent.out"@) != file_in(dir, "agent.err"@),
        file_in(dir, "agent.out"@) != file_in(dir, "device_id"@),
        file_in(dir, "agent.err"@) != file_in(dir, "device_id"@),
{
    reveal_strlit("pidfile");
    reveal_strlit("socket");
    reveal_strlit("ssh-agent-socket");
    reveal_strlit("agent.out");
    reveal_strlit("agent.err");
    reveal_strlit("device_id");
    is_ascii_chars_encode_utf8("pidfile"@);
    is_ascii_chars_encode_utf8("socket"@);
    is_ascii_chars_encode_utf8("ssh-agent-socket"@);
    is_ascii_chars_encode_utf8("agent.out"@);
    is_ascii_chars_encode_utf8("agent.err"@);
    is_ascii_chars_encode_utf8("device_id"@);
    assert(file_in(dir, "pidfile"@).last() == 'e' as u8);
    assert(file_in(dir, "socket"@).last() == 't' as u8);
    assert(file_in(dir, "ssh-agent-socket"@).len() > file_in(dir, "socket"@).len());
    assert(file_in(dir, "ssh-agent-socket"@).last() == 't' as u8);
    assert(file_in(dir, "agent.out"@).last() == 't' as u8);
    assert(file_in(dir, "agent.err"@).last() == 'r' as u8);
    assert(file_in(dir, "device_id"@).last() == 'd' as u8);
}

/// An ASCII character is encoded as its number.
proof fn lemma_ascii_scalar(c: char)
    requires
        c as int <= 0x7f,
    ensures
        encode_scalar(c as u32) == seq![c as u8],
{
    let u = c as u32;
    assert(leading_byte_width_1(u) == u as u8) by (bit_vector)
        requires
            u < 0x80,
    ;
}

/// An ASCII character at the start of a text is the first byte of its encoding.
proof fn lemma_first_byte(s: Seq<char>, c: char)
    requires
        s.len() > 0,
        s[0] == c,
        c as int <= 0x7f,
    ensures
        encode_utf8(s).len() > 0,
        encode_utf8(s)[0] == c as u8,
{
    lemma_ascii_scalar(c);
}

/// The name of a vault's file does not start at the root.
proof fn lemma_db_name_is_relative(server: Seq<char>, email: Seq<char>)
    ensures
        encode_utf8(db_name(server, email)).len() > 0,
        encode_utf8(db_name(server, email))[0] != SLASH,
{
    reveal_strlit(":");
    let name = db_name(server, email);
    let head = path_encoded(server);
    if head.len() > 0 {
        lemma_path_characters(encode_utf8(server), 0);
        assert(name[0] == head[0]);
    } else {
        assert(name[0] == ':');
    }
    lemma_first_byte(name, name[0]);
}

/// No two accounts share a file: the server and the address can be read off the name of the
/// file that holds their vault.
pub proof fn law_accounts_have_their_own_files(
    dir: Seq<u8>,
    server: Seq<char>,
    email: Seq<char>,
    other_server: Seq<char>,
    other_email: Seq<char>,
)
    requires
        file_in(dir, db_name(server, email)) == file_in(dir, db_name(other_server, other_email)),
    ensures
        server == other_server,
        email == other_email,
{
    reveal_strlit(":");
    reveal_strlit(".json");
    let name = db_name(server, email);
    let other = db_name(other_server, other_email);
    let head = path_encoded(server);
    let other_head = path_encoded(other_server);
    let keep = |b: u8| path_byte(b);
    let above = if dir.len() == 0 || dir.last() == SLASH {
        dir
    } else {
        dir.push(SLASH)
    };
    assert(file_in(dir, name).skip(above.len() as int) =~= encode_utf8(name));
    assert(file_in(dir, other).skip(above.len() as int) =~= encode_utf8(other));
    encode_utf8_decode_utf8(name);
    encode_utf8_decode_utf8(other);
    assert(name == other);
    assert(name[head.len() as int] == ':');
    assert(other[other_head.len() as int] == ':');
    if head.len() < other_head.len() {
        lemma_path_characters(encode_utf8(other_server), head.len() as int);
        assert(other[head.len() as int] == other_head[head.len() as int]);
    }
    if other_head.len() < head.len() {
        lemma_path_characters(encode_utf8(server), other_head.len() as int);
        assert(name[other_head.len() as int] == head[other_head.len() as int]);
    }
    let n = head.len() as int;
    assert(head =~= name.take(n));
    assert(other_head =~= other.take(n));
    assert(email =~= name.subrange(n + 1, name.len() - 5));
    assert(other_email =~= other.subrange(n + 1, other.len() - 5));
    law_decoding_undoes_encoding(encode_utf8(server), keep);
    law_decoding_undoes_encoding(encode_utf8(other_server), keep);
    encode_utf8_decode_utf8(server);
    encode_utf8_decode_utf8(other_server);
}

} // verus!
