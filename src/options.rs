//! The configuration value: policy flags and the tree of per-path overrides,
//! with the rules that build it from a JSON document.

use vstd::prelude::*;

use crate::json::{json_model, lemma_members_model, lookup, members_model, JsonModel, JsonValue};

verus! {

/// The sync directive for one file.
#[derive(Debug, PartialEq)]
pub enum FileSyncMode {
    /// The file's whole content is replaced by that of this location
    /// (a remote URL or a relative path), kept verbatim.
    SyncWholeFile(String),
    /// The file is synced even where ignore rules would skip it.
    Enable,
    /// The file is never synced.
    Ignore,
    /// The ambient policy decides.
    Auto,
}

pub enum ModeModel {
    SyncWholeFile(Seq<char>),
    Enable,
    Ignore,
    Auto,
}

impl View for FileSyncMode {
    type V = ModeModel;

    open spec fn view(&self) -> ModeModel {
        match self {
            FileSyncMode::SyncWholeFile(s) => ModeModel::SyncWholeFile(s@),
            FileSyncMode::Enable => ModeModel::Enable,
            FileSyncMode::Ignore => ModeModel::Ignore,
            FileSyncMode::Auto => ModeModel::Auto,
        }
    }
}

/// One override: a directive for a file, or the overrides under a folder.
#[derive(Debug, PartialEq)]
pub enum FileOrFolder {
    File(FileSyncMode),
    Folder(Overrides),
}

/// Named overrides. A name is a single path segment; where a name occurs
/// more than once, the last entry is the one that counts.
#[derive(Debug, PartialEq)]
pub struct Overrides {
    pub entries: Vec<(String, FileOrFolder)>,
}

pub enum NodeModel {
    File(ModeModel),
    Folder(Seq<(Seq<char>, NodeModel)>),
}

pub open spec fn node_model(n: FileOrFolder) -> NodeModel
    decreases n,
{
    match n {
        FileOrFolder::File(m) => NodeModel::File(m@),
        FileOrFolder::Folder(o) => NodeModel::Folder(entries_model(o.entries@)),
    }
}

pub open spec fn entries_model(entries: Seq<(String, FileOrFolder)>) -> Seq<(Seq<char>, NodeModel)>
    decreases entries,
{
    if entries.len() == 0 {
        Seq::empty()
    } else {
        let last = entries[entries.len() - 1];
        entries_model(entries.subrange(0, entries.len() - 1)).push((last.0@, node_model(last.1)))
    }
}

impl View for FileOrFolder {
    type V = NodeModel;

    open spec fn view(&self) -> NodeModel {
        node_model(*self)
    }
}

impl View for Overrides {
    type V = Seq<(Seq<char>, NodeModel)>;

    open spec fn view(&self) -> Seq<(Seq<char>, NodeModel)> {
        entries_model(self.entries@)
    }
}

pub proof fn lemma_entries_model(entries: Seq<(String, FileOrFolder)>)
    ensures
        entries_model(entries).len() == entries.len(),
        forall|i: int|
            0 <= i < entries.len() ==> #[trigger] entries_model(entries)[i] == (
                entries[i].0@,
                node_model(entries[i].1),
            ),
    decreases entries.len(),
{
    if entries.len() > 0 {
        lemma_entries_model(entries.subrange(0, entries.len() - 1));
    }
}

/// The whole configuration.
#[derive(Debug, PartialEq)]
pub struct Options {
    /// Once set, a run refuses to start where the root folder holds no
    /// `.gitignore` file.
    pub require_gitignore: bool,
    /// Once set, `.gitignore` rules decide which files are skipped, unless an
    /// override says otherwise.
    pub use_gitignore: bool,
    /// The overrides for files and folders under the root.
    pub customize: Overrides,
}

pub struct OptionsModel {
    pub require_gitignore: bool,
    pub use_gitignore: bool,
    pub customize: Seq<(Seq<char>, NodeModel)>,
}

impl View for Options {
    type V = OptionsModel;

    open spec fn view(&self) -> OptionsModel {
        OptionsModel {
            require_gitignore: self.require_gitignore,
            use_gitignore: self.use_gitignore,
            customize: self.customize@,
        }
    }
}

/// Why a document is not a configuration.
#[derive(Debug, PartialEq)]
pub enum ConfigError {
    /// A value has a kind that its place does not accept. The path names it:
    /// field, then entry names down the override tree (empty for the
    /// document itself).
    StructuralError(Vec<String>),
    /// A field that must be present is absent.
    MissingRequiredField(String),
}

pub enum ErrorModel {
    StructuralError(Seq<Seq<char>>),
    MissingRequiredField(Seq<char>),
}

impl View for ConfigError {
    type V = ErrorModel;

    open spec fn view(&self) -> ErrorModel {
        match self {
            ConfigError::StructuralError(path) => ErrorModel::StructuralError(path_model(path@)),
            ConfigError::MissingRequiredField(name) => ErrorModel::MissingRequiredField(name@),
        }
    }
}

pub open spec fn options_result_model(r: Result<Options, ConfigError>) -> Result<OptionsModel, ErrorModel> {
    match r {
        Ok(o) => Ok(o@),
        Err(e) => Err(e@),
    }
}

/// The value of a policy flag: `true` where it is absent.
pub open spec fn flag_spec(v: Option<JsonModel>, name: Seq<char>) -> Result<bool, ErrorModel> {
    match v {
        None => Ok(true),
        Some(JsonModel::Bool(b)) => Ok(b),
        Some(_) => Err(ErrorModel::StructuralError(seq![name])),
    }
}

/// The overrides that the `customize` field's value denotes.
pub open spec fn customize_spec(v: Option<JsonModel>) -> Result<Seq<(Seq<char>, NodeModel)>, ErrorModel> {
    match v {
        None => Err(ErrorModel::MissingRequiredField("customize"@)),
        Some(JsonModel::Object(members)) => match parse_entries_spec(members) {
            Ok(entries) => Ok(entries),
            Err(path) => Err(ErrorModel::StructuralError(seq!["customize"@].add(path))),
        },
        Some(_) => Err(ErrorModel::StructuralError(seq!["customize"@])),
    }
}

/// The configuration that a document denotes. Fields other than the three
/// known ones are ignored; the flags are checked before `customize`.
pub open spec fn parse_options_spec(doc: JsonModel) -> Result<OptionsModel, ErrorModel> {
    match doc {
        JsonModel::Object(members) => match flag_spec(
            lookup(members, "requireGitignore"@),
            "requireGitignore"@,
        ) {
            Err(e) => Err(e),
            Ok(require_gitignore) => match flag_spec(lookup(members, "useGitignore"@), "useGitignore"@) {
                Err(e) => Err(e),
                Ok(use_gitignore) => match customize_spec(lookup(members, "customize"@)) {
                    Err(e) => Err(e),
                    Ok(customize) => Ok(OptionsModel { require_gitignore, use_gitignore, customize }),
                },
            },
        },
        _ => Err(ErrorModel::StructuralError(Seq::empty())),
    }
}

/// The directive that a string names: one of three keywords, matched exactly,
/// or else a source location.
pub open spec fn mode_of(s: Seq<char>) -> ModeModel {
    if s == "auto"@ {
        ModeModel::Auto
    } else if s == "enable"@ {
        ModeModel::Enable
    } else if s == "ignore"@ {
        ModeModel::Ignore
    } else {
        ModeModel::SyncWholeFile(s)
    }
}

/// The override that a JSON value denotes, or the path (relative to that
/// value) of the first entry whose value is neither a string nor an object.
pub open spec fn parse_node_spec(j: JsonModel) -> Result<NodeModel, Seq<Seq<char>>>
    decreases j,
{
    match j {
        JsonModel::Str(s) => Ok(NodeModel::File(mode_of(s))),
        JsonModel::Object(members) => match parse_entries_spec(members) {
            Ok(entries) => Ok(NodeModel::Folder(entries)),
            Err(path) => Err(path),
        },
        _ => Err(Seq::empty()),
    }
}

/// The overrides that the members of a JSON object denote, in document order.
pub open spec fn parse_entries_spec(members: Seq<(Seq<char>, JsonModel)>) -> Result<
    Seq<(Seq<char>, NodeModel)>,
    Seq<Seq<char>>,
>
    decreases members,
{
    if members.len() == 0 {
        Ok(Seq::empty())
    } else {
        let last = members[members.len() - 1];
        match parse_entries_spec(members.subrange(0, members.len() - 1)) {
            Err(path) => Err(path),
            Ok(entries) => match parse_node_spec(last.1) {
                Ok(n) => Ok(entries.push((last.0, n))),
                Err(path) => Err(seq![last.0].add(path)),
            },
        }
    }
}

pub open spec fn path_model(path: Seq<String>) -> Seq<Seq<char>> {
    path.map_values(|s: String| s@)
}

pub open spec fn node_result_model(r: Result<FileOrFolder, Vec<String>>) -> Result<
    NodeModel,
    Seq<Seq<char>>,
> {
    match r {
        Ok(n) => Ok(n@),
        Err(path) => Err(path_model(path@)),
    }
}

/// An error found in a prefix of the members is the error of the whole.
proof fn lemma_entries_error_prefix(members: Seq<(Seq<char>, JsonModel)>, k: int)
    requires
        0 <= k <= members.len(),
        parse_entries_spec(members.subrange(0, k)) is Err,
    ensures
        parse_entries_spec(members) == parse_entries_spec(members.subrange(0, k)),
    decreases members.len() - k,
{
    if k < members.len() {
        let pre = members.subrange(0, k + 1);
        assert(pre.subrange(0, pre.len() - 1) =~= members.subrange(0, k));
        lemma_entries_error_prefix(members, k + 1);
    } else {
        assert(members.subrange(0, k) =~= members);
    }
}

/// The value that a policy flag takes when a document leaves it out.
pub fn enable() -> (r: bool)
    ensures
        r,
{
    true
}

/// The value of the last member named `key`, if any.
fn find_member<'a>(members: &'a Vec<(String, JsonValue)>, key: &str) -> (r: Option<&'a JsonValue>)
    ensures
        match r {
            Some(v) => lookup(members_model(members@), key@) == Some(v@),
            None => lookup(members_model(members@), key@) is None,
        },
{
    let ghost mm = members_model(members@);
    proof {
        lemma_members_model(members@);
        assert(mm.subrange(0, mm.len() as int) =~= mm);
    }
    let k = key.to_owned();
    let mut i: usize = members.len();
    while i > 0
        invariant
            i <= members.len(),
            mm == members_model(members@),
            mm.len() == members.len(),
            forall|n: int|
                0 <= n < members.len() ==> #[trigger] mm[n] == (
                    members@[n].0@,
                    json_model(members@[n].1),
                ),
            k@ == key@,
            lookup(mm, key@) == lookup(mm.subrange(0, i as int), key@),
        decreases i,
    {
        i = i - 1;
        let ghost pre = mm.subrange(0, i + 1);
        proof {
            assert(pre.subrange(0, pre.len() - 1) =~= mm.subrange(0, i as int));
            assert(pre[pre.len() - 1] == mm[i as int]);
        }
        if members[i].0 == k {
            return Some(&members[i].1);
        }
    }
    None
}

impl Overrides {
    /// The override for `name`: that of the last entry with this name.
    pub fn get(&self, name: &str) -> (r: Option<&FileOrFolder>)
        ensures
            match r {
                Some(n) => lookup(self@, name@) == Some(n@),
                None => lookup(self@, name@) is None,
            },
    {
        let ghost em = entries_model(self.entries@);
        proof {
            lemma_entries_model(self.entries@);
            assert(em.subrange(0, em.len() as int) =~= em);
        }
        let k = name.to_owned();
        let mut i: usize = self.entries.len();
        while i > 0
            invariant
                i <= self.entries.len(),
                em == entries_model(self.entries@),
                em.len() == self.entries.len(),
                forall|n: int|
                    0 <= n < self.entries.len() ==> #[trigger] em[n] == (
                        self.entries@[n].0@,
                        node_model(self.entries@[n].1),
                    ),
                k@ == name@,
                lookup(em, name@) == lookup(em.subrange(0, i as int), name@),
            decreases i,
        {
            i = i - 1;
            let ghost pre = em.subrange(0, i + 1);
            proof {
                assert(pre.subrange(0, pre.len() - 1) =~= em.subrange(0, i as int));
                assert(pre[pre.len() - 1] == em[i as int]);
            }
            if self.entries[i].0 == k {
                return Some(&self.entries[i].1);
            }
        }
        None
    }
}

spec fn opt_json_model(v: Option<&JsonValue>) -> Option<JsonModel> {
    match v {
        Some(x) => Some(x@),
        None => None,
    }
}

/// Reads a policy flag: absent means `true`, a boolean is taken as it is.
fn read_flag(v: Option<&JsonValue>, name: &str) -> (r: Result<bool, ConfigError>)
    ensures
        match r {
            Ok(b) => flag_spec(opt_json_model(v), name@) == Ok::<bool, ErrorModel>(b),
            Err(e) => flag_spec(opt_json_model(v), name@) == Err::<bool, ErrorModel>(e@),
        },
{
    match v {
        None => Ok(enable()),
        Some(JsonValue::Bool(b)) => Ok(*b),
        Some(_) => {
            let mut path: Vec<String> = Vec::new();
            path.push(name.to_owned());
            proof {
                assert(path_model(path@) =~= seq![name@]);
            }
            Err(ConfigError::StructuralError(path))
        },
    }
}

impl Options {
    /// Reads the configuration from a JSON document: an object whose
    /// `requireGitignore` and `useGitignore` members are booleans (`true`
    /// where absent) and whose `customize` member, which must be present, is
    /// an object of overrides. Other members are ignored.
    pub fn from_json(doc: &JsonValue) -> (r: Result<Options, ConfigError>)
        ensures
            options_result_model(r) == parse_options_spec(doc@),
    {
        match doc {
            JsonValue::Object(members) => {
                let require_gitignore = match read_flag(
                    find_member(members, "requireGitignore"),
                    "requireGitignore",
                ) {
                    Ok(b) => b,
                    Err(e) => {
                        return Err(e);
                    },
                };
                let use_gitignore = match read_flag(find_member(members, "useGitignore"), "useGitignore") {
                    Ok(b) => b,
                    Err(e) => {
                        return Err(e);
                    },
                };
                let customize = match find_member(members, "customize") {
                    None => {
                        return Err(ConfigError::MissingRequiredField("customize".to_owned()));
                    },
                    Some(v) => match v {
                        JsonValue::Object(_) => match FileOrFolder::from_json(v) {
                            Ok(FileOrFolder::Folder(o)) => o,
                            Ok(FileOrFolder::File(_)) => {
                                proof {
                                    assert(false);
                                }
                                return Err(ConfigError::StructuralError(Vec::new()));
                            },
                            Err(tail) => {
                                let ghost t = tail@;
                                let mut path = tail;
                                path.insert(0, "customize".to_owned());
                                proof {
                                    assert(path_model(path@) =~= seq!["customize"@].add(path_model(t)));
                                }
                                return Err(ConfigError::StructuralError(path));
                            },
                        },
                        _ => {
                            let mut path: Vec<String> = Vec::new();
                            path.push("customize".to_owned());
                            proof {
                                assert(path_model(path@) =~= seq!["customize"@]);
                            }
                            return Err(ConfigError::StructuralError(path));
                        },
                    },
                };
                Ok(Options { require_gitignore, use_gitignore, customize })
            },
            _ => {
                let path: Vec<String> = Vec::new();
                proof {
                    assert(path_model(path@) =~= Seq::empty());
                }
                Err(ConfigError::StructuralError(path))
            },
        }
    }
}

impl FileSyncMode {
    /// The directive that `v` names: `"auto"`, `"enable"` and `"ignore"`
    /// are keywords; any other string is a source location, kept as given.
    pub fn from_keyword(v: &str) -> (r: FileSyncMode)
        ensures
            r@ == mode_of(v@),
    {
        let s = v.to_owned();
        if s == "auto".to_owned() {
            FileSyncMode::Auto
        } else if s == "enable".to_owned() {
            FileSyncMode::Enable
        } else if s == "ignore".to_owned() {
            FileSyncMode::Ignore
        } else {
            FileSyncMode::SyncWholeFile(s)
        }
    }
}

impl FileOrFolder {
    /// Reads one override from a JSON value: a string is a file directive, an
    /// object a folder whose members are read the same way at every depth.
    /// Any other value is refused, with the path to it.
    pub fn from_json(j: &JsonValue) -> (r: Result<FileOrFolder, Vec<String>>)
        ensures
            node_result_model(r) == parse_node_spec(j@),
        decreases j,
    {
        match j {
            JsonValue::Str(s) => {
                let mode = FileSyncMode::from_keyword(s.as_str());
                Ok(FileOrFolder::File(mode))
            },
            JsonValue::Object(members) => {
                let ghost mm = members_model(members@);
                proof {
                    lemma_members_model(members@);
                }
                let mut out: Vec<(String, FileOrFolder)> = Vec::new();
                let mut i: usize = 0;
                while i < members.len()
                    invariant
                        i <= members.len(),
                        *j == JsonValue::Object(*members),
                        mm == members_model(members@),
                        mm.len() == members.len(),
                        forall|k: int|
                            0 <= k < members.len() ==> #[trigger] mm[k] == (
                                members@[k].0@,
                                json_model(members@[k].1),
                            ),
                        parse_entries_spec(mm.subrange(0, i as int)) == Ok::<
                            Seq<(Seq<char>, NodeModel)>,
                            Seq<Seq<char>>,
                        >(entries_model(out@)),
                    decreases members.len() - i,
                {
                    let name = &members[i].0;
                    let value = &members[i].1;
                    proof {
                        assert(*members == j->Object_0);
                        assert(decreases_to!(*j => j->Object_0));
                        assert(decreases_to!(members => members@[i as int]));
                        assert(decreases_to!(members@[i as int] => members@[i as int].1));
                    }
                    let child = FileOrFolder::from_json(value);
                    let ghost pre = mm.subrange(0, i + 1);
                    proof {
                        assert(pre.subrange(0, pre.len() - 1) =~= mm.subrange(0, i as int));
                        assert(pre[pre.len() - 1] == mm[i as int]);
                    }
                    match child {
                        Ok(n) => {
                            let ghost before = out@;
                            out.push((name.clone(), n));
                            proof {
                                assert(out@.subrange(0, out@.len() - 1) =~= before);
                            }
                        },
                        Err(path) => {
                            let ghost tail = path@;
                            let mut path = path;
                            path.insert(0, name.clone());
                            proof {
                                assert(path_model(path@) =~= seq![name@].add(path_model(tail)));
                                lemma_entries_error_prefix(mm, i + 1);
                            }
                            return Err(path);
                        },
                    }
                    i = i + 1;
                }
                proof {
                    assert(mm.subrange(0, i as int) =~= mm);
                }
                Ok(FileOrFolder::Folder(Overrides { entries: out }))
            },
            _ => {
                let path: Vec<String> = Vec::new();
                proof {
                    assert(path_model(path@) =~= Seq::empty());
                }
                Err(path)
            },
        }
    }
}

/// A document that parses and leaves out `requireGitignore` or
/// `useGitignore` gets `true` for each flag left out.
pub proof fn lemma_absent_flags_are_true(members: Seq<(Seq<char>, JsonModel)>)
    requires
        parse_options_spec(JsonModel::Object(members)) is Ok,
    ensures
        lookup(members, "requireGitignore"@) is None ==> parse_options_spec(
            JsonModel::Object(members),
        )->Ok_0.require_gitignore,
        lookup(members, "useGitignore"@) is None ==> parse_options_spec(
            JsonModel::Object(members),
        )->Ok_0.use_gitignore,
{
}

/// Every string other than the three keywords reads as a source location
/// that holds exactly that string.
pub proof fn lemma_other_strings_are_locations(s: Seq<char>)
    requires
        s != "auto"@,
        s != "enable"@,
        s != "ignore"@,
    ensures
        mode_of(s) == ModeModel::SyncWholeFile(s),
        parse_node_spec(JsonModel::Str(s)) == Ok::<NodeModel, Seq<Seq<char>>>(
            NodeModel::File(ModeModel::SyncWholeFile(s)),
        ),
{
}

/// Reading an object keeps its members: the overrides have the members'
/// names, in the same order, and each is what its member's value reads as,
/// an object becoming a folder and a string a file. So names and nesting are
/// kept at every depth.
pub proof fn lemma_entries_keep_structure(members: Seq<(Seq<char>, JsonModel)>)
    requires
        parse_entries_spec(members) is Ok,
    ensures
        parse_entries_spec(members)->Ok_0.len() == members.len(),
        forall|i: int|
            0 <= i < members.len() ==> (#[trigger] parse_entries_spec(members)->Ok_0[i]).0
                == members[i].0 && parse_node_spec(members[i].1) == Ok::<
                NodeModel,
                Seq<Seq<char>>,
            >(parse_entries_spec(members)->Ok_0[i].1),
        forall|i: int|
            0 <= i < members.len() ==> (members[i].1 is Object <==> (
            #[trigger] parse_entries_spec(members)->Ok_0[i]).1 is Folder) && (members[i].1 is Str
                <==> parse_entries_spec(members)->Ok_0[i].1 is File),
    decreases members.len(),
{
    if members.len() > 0 {
        lemma_entries_keep_structure(members.subrange(0, members.len() - 1));
    }
    let entries = parse_entries_spec(members)->Ok_0;
    assert forall|i: int| 0 <= i < members.len() implies (members[i].1 is Object <==> (
    #[trigger] entries[i]).1 is Folder) && (members[i].1 is Str <==> entries[i].1 is File) by {
        lemma_node_kind(members[i].1);
    }
}

/// An object reads as a folder, a string as a file, and nothing else reads.
pub proof fn lemma_node_kind(j: JsonModel)
    ensures
        parse_node_spec(j) is Ok <==> (j is Object && parse_entries_spec(j->Object_0) is Ok)
            || j is Str,
        parse_node_spec(j) is Ok ==> (j is Object <==> parse_node_spec(j)->Ok_0 is Folder),
        parse_node_spec(j) is Ok ==> (j is Str <==> parse_node_spec(j)->Ok_0 is File),
{
}

} // verus!
