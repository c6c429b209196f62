//! The canonical JSON form of a configuration, and the proof that reading it
//! back gives the same configuration.

use vstd::prelude::*;

use crate::json::{json_model, lookup, members_model, JsonModel, JsonValue};
use crate::options::{
    entries_model, lemma_entries_model, mode_of, node_model, FileOrFolder, FileSyncMode, Options, Overrides, parse_entries_spec, parse_node_spec, parse_options_spec, ModeModel, NodeModel,
    OptionsModel,
};

verus! {

/// The string that denotes a directive.
pub open spec fn mode_text(m: ModeModel) -> Seq<char> {
    match m {
        ModeModel::Auto => "auto"@,
        ModeModel::Enable => "enable"@,
        ModeModel::Ignore => "ignore"@,
        ModeModel::SyncWholeFile(s) => s,
    }
}

pub open spec fn node_json(n: NodeModel) -> JsonModel
    decreases n,
{
    match n {
        NodeModel::File(m) => JsonModel::Str(mode_text(m)),
        NodeModel::Folder(entries) => JsonModel::Object(entries_json(entries)),
    }
}

pub open spec fn entries_json(entries: Seq<(Seq<char>, NodeModel)>) -> Seq<(Seq<char>, JsonModel)>
    decreases entries,
{
    if entries.len() == 0 {
        Seq::empty()
    } else {
        let last = entries[entries.len() - 1];
        entries_json(entries.subrange(0, entries.len() - 1)).push((last.0, node_json(last.1)))
    }
}

/// The canonical document: both flags written out, then the overrides.
pub open spec fn options_json(o: OptionsModel) -> JsonModel {
    JsonModel::Object(
        seq![
            ("requireGitignore"@, JsonModel::Bool(o.require_gitignore)),
            ("useGitignore"@, JsonModel::Bool(o.use_gitignore)),
            ("customize"@, JsonModel::Object(entries_json(o.customize))),
        ],
    )
}

/// Writing a directive out and reading it back gives the same directive.
pub proof fn lemma_mode_round_trip(s: Seq<char>)
    ensures
        mode_of(mode_text(mode_of(s))) == mode_of(s),
{
}

/// An override read from a value reads the same from its canonical form.
pub proof fn lemma_node_round_trip(j: JsonModel)
    requires
        parse_node_spec(j) is Ok,
    ensures
        parse_node_spec(node_json(parse_node_spec(j)->Ok_0)) == parse_node_spec(j),
    decreases j,
{
    match j {
        JsonModel::Str(s) => {
            lemma_mode_round_trip(s);
        },
        JsonModel::Object(members) => {
            lemma_entries_round_trip(members);
        },
        _ => {},
    }
}

/// Overrides read from members read the same from their canonical form.
pub proof fn lemma_entries_round_trip(members: Seq<(Seq<char>, JsonModel)>)
    requires
        parse_entries_spec(members) is Ok,
    ensures
        parse_entries_spec(entries_json(parse_entries_spec(members)->Ok_0)) == parse_entries_spec(
            members,
        ),
    decreases members,
{
    if members.len() > 0 {
        let pre = members.subrange(0, members.len() - 1);
        let last = members[members.len() - 1];
        lemma_entries_round_trip(pre);
        lemma_node_round_trip(last.1);
        let entries = parse_entries_spec(pre)->Ok_0;
        let n = parse_node_spec(last.1)->Ok_0;
        let all = entries.push((last.0, n));
        assert(all.subrange(0, all.len() - 1) =~= entries);
        let js = entries_json(all);
        assert(js.subrange(0, js.len() - 1) =~= entries_json(entries));
    } else {
        assert(entries_json(Seq::empty()) =~= Seq::empty());
    }
}

/// Reading is idempotent: a configuration read from a document reads the
/// same from its canonical form.
pub proof fn lemma_reparse_canonical(doc: JsonModel)
    requires
        parse_options_spec(doc) is Ok,
    ensures
        parse_options_spec(options_json(parse_options_spec(doc)->Ok_0)) == parse_options_spec(doc),
{
    reveal_strlit("requireGitignore");
    reveal_strlit("useGitignore");
    reveal_strlit("customize");
    let o = parse_options_spec(doc)->Ok_0;
    let members = doc->Object_0;
    let cm = lookup(members, "customize"@)->Some_0->Object_0;
    lemma_entries_round_trip(cm);
    let canon = options_json(o)->Object_0;
    let c2 = canon.subrange(0, 2);
    let c1 = c2.subrange(0, 1);
    let c0 = c1.subrange(0, 0);
    assert("customize"@.len() != "requireGitignore"@.len());
    assert("customize"@.len() != "useGitignore"@.len());
    assert("useGitignore"@.len() != "requireGitignore"@.len());
    assert(c1[0] == canon[0] && c2[1] == canon[1]);
    assert(lookup(c0, "requireGitignore"@) is None);
    assert(lookup(c1, "requireGitignore"@) == Some(JsonModel::Bool(o.require_gitignore)));
    assert(lookup(c2, "requireGitignore"@) == lookup(c1, "requireGitignore"@));
    assert(lookup(c2, "useGitignore"@) == Some(JsonModel::Bool(o.use_gitignore)));
    assert(lookup(canon, "requireGitignore"@) == Some(JsonModel::Bool(o.require_gitignore)));
    assert(lookup(canon, "useGitignore"@) == Some(JsonModel::Bool(o.use_gitignore)));
    assert(lookup(canon, "customize"@) == Some(JsonModel::Object(entries_json(o.customize))));
}

impl FileSyncMode {
    /// The string that denotes this directive.
    pub fn to_text(&self) -> (r: String)
        ensures
            r@ == mode_text(self@),
    {
        match self {
            FileSyncMode::Auto => "auto".to_owned(),
            FileSyncMode::Enable => "enable".to_owned(),
            FileSyncMode::Ignore => "ignore".to_owned(),
            FileSyncMode::SyncWholeFile(s) => s.clone(),
        }
    }
}

impl FileOrFolder {
    /// The canonical JSON form: a string for a file, an object for a folder.
    pub fn to_json(&self) -> (r: JsonValue)
        ensures
            r@ == node_json(self@),
        decreases self,
    {
        match self {
            FileOrFolder::File(m) => JsonValue::Str(m.to_text()),
            FileOrFolder::Folder(o) => {
                proof {
                    assert(decreases_to!(*self => self->Folder_0));
                }
                o.to_json()
            },
        }
    }
}

impl Overrides {
    /// The canonical JSON form: an object with one member per entry, in order.
    pub fn to_json(&self) -> (r: JsonValue)
        ensures
            r@ == JsonModel::Object(entries_json(self@)),
        decreases self,
    {
        let ghost em = entries_model(self.entries@);
        proof {
            lemma_entries_model(self.entries@);
        }
        let mut out: Vec<(String, JsonValue)> = Vec::new();
        let mut i: usize = 0;
        while i < self.entries.len()
            invariant
                i <= self.entries.len(),
                em == entries_model(self.entries@),
                em.len() == self.entries.len(),
                forall|k: int|
                    0 <= k < self.entries.len() ==> #[trigger] em[k] == (
                        self.entries@[k].0@,
                        node_model(self.entries@[k].1),
                    ),
                members_model(out@) == entries_json(em.subrange(0, i as int)),
            decreases self.entries.len() - i,
        {
            proof {
                assert(decreases_to!(*self => self.entries));
                assert(decreases_to!(self.entries => self.entries@[i as int]));
                assert(decreases_to!(self.entries@[i as int] => self.entries@[i as int].1));
            }
            let child = self.entries[i].1.to_json();
            let ghost before = out@;
            out.push((self.entries[i].0.clone(), child));
            proof {
                let pre = em.subrange(0, i + 1);
                assert(pre.subrange(0, pre.len() - 1) =~= em.subrange(0, i as int));
                assert(pre[pre.len() - 1] == em[i as int]);
                assert(out@.subrange(0, out@.len() - 1) =~= before);
            }
            i = i + 1;
        }
        proof {
            assert(em.subrange(0, i as int) =~= em);
        }
        JsonValue::Object(out)
    }
}

impl Options {
    /// The canonical JSON document: both flags written out, then the
    /// overrides.
    pub fn to_json(&self) -> (r: JsonValue)
        ensures
            r@ == options_json(self@),
    {
        let mut out: Vec<(String, JsonValue)> = Vec::new();
        let k1 = "requireGitignore".to_owned();
        let v1 = JsonValue::Bool(self.require_gitignore);
        proof {
            assert(v1@ == JsonModel::Bool(self.require_gitignore));
        }
        out.push((k1, v1));
        let ghost m1 = out@;
        let k2 = "useGitignore".to_owned();
        let v2 = JsonValue::Bool(self.use_gitignore);
        proof {
            assert(v2@ == JsonModel::Bool(self.use_gitignore));
        }
        out.push((k2, v2));
        let ghost m2 = out@;
        out.push(("customize".to_owned(), self.customize.to_json()));
        proof {
            assert(m1.subrange(0, 0) =~= Seq::<(String, JsonValue)>::empty());
            assert(m2.subrange(0, 1) =~= m1);
            assert(out@.subrange(0, 2) =~= m2);
            assert(members_model(m1) == members_model(m1.subrange(0, 0)).push(
                ("requireGitignore"@, JsonModel::Bool(self.require_gitignore)),
            ));
            assert(members_model(m1.subrange(0, 0)) == Seq::<(Seq<char>, JsonModel)>::empty());
            assert(members_model(m2) == members_model(m1).push(
                ("useGitignore"@, JsonModel::Bool(self.use_gitignore)),
            ));
            assert(members_model(out@) == members_model(m2).push(
                ("customize"@, JsonModel::Object(entries_json(self.customize@))),
            ));
            assert(members_model(out@) =~= options_json(self@)->Object_0);
        }
        JsonValue::Object(out)
    }
}

} // verus!
