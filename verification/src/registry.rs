//! Discovery records: application identity cards and tool metadata, with
//! their document structure, and the scan logic that reads a registry
//! directory's entries.
//!
//! The filesystem itself is outside this crate: callers hand `list` the
//! directory entries they read, and write the text that
//! [`AppRegistration::registration_text`] builds to the path that
//! [`AppRegistration::registration_path`] names.

use vstd::prelude::*;
use vstd::string::*;
use crate::json::{Json, JsonV, first_entry, obj_view, lemma_obj_view, opt_json_view, lemma_pop_prefix, lemma_suffix_step};
use crate::text::{decode_of, pretty_encode_of};

verus! {

broadcast use vstd::std_specs::vec::group_vec_axioms, vstd::seq::group_seq_axioms;

/// What can go wrong registering or listing applications.
#[derive(Debug, PartialEq)]
pub enum RegistryError {
    /// The user's home directory could not be found.
    HomeDirNotFound,
    /// A filesystem operation failed; the payload is its description.
    Io(String),
    /// Encoding a record failed; the payload is the description.
    Serde(String),
}

/// One application's identity card: who it is and where its socket is.
#[derive(Debug, PartialEq)]
pub struct AppRegistration {
    pub app_id: String,
    pub name: String,
    pub socket_path: String,
    pub pid: u32,
}

#[verifier::ext_equal]
pub struct RegV {
    pub app_id: Seq<char>,
    pub name: Seq<char>,
    pub socket_path: Seq<char>,
    pub pid: int,
}

impl View for AppRegistration {
    type V = RegV;

    open spec fn view(&self) -> RegV {
        RegV {
            app_id: self.app_id@,
            name: self.name@,
            socket_path: self.socket_path@,
            pid: self.pid as int,
        }
    }
}

/// A named, described, schema-annotated operation an application exposes.
/// The schema is advisory metadata; nothing here validates against it.
#[derive(Debug, PartialEq)]
pub struct Tool {
    pub name: String,
    pub description: String,
    pub parameters: Json,
}

#[verifier::ext_equal]
pub struct ToolV {
    pub name: Seq<char>,
    pub description: Seq<char>,
    pub parameters: JsonV,
}

impl View for Tool {
    type V = ToolV;

    open spec fn view(&self) -> ToolV {
        ToolV {
            name: self.name@,
            description: self.description@,
            parameters: self.parameters@,
        }
    }
}

impl Tool {
    /// A tool from its name, description and parameter schema.
    pub fn new(name: &str, description: &str, params: Json) -> (t: Tool)
        ensures
            t@ == (ToolV { name: name@, description: description@, parameters: params@ }),
    {
        Tool { name: name.to_owned(), description: description.to_owned(), parameters: params }
    }
}

/// The document structure of a tool: one object with its three members.
pub open spec fn spec_json_of_tool(t: ToolV) -> JsonV {
    JsonV::Obj(
        seq![
            ("name"@, JsonV::Str(t.name)),
            ("description"@, JsonV::Str(t.description)),
            ("parameters"@, t.parameters),
        ],
    )
}

impl Tool {
    /// Builds the document that carries this tool in a manifest.
    pub fn to_json(&self) -> (j: Json)
        ensures
            j@ == spec_json_of_tool(self@),
    {
        let mut members: Vec<(String, Json)> = Vec::new();
        members.push(("name".to_owned(), Json::Str(self.name.clone())));
        members.push(("description".to_owned(), Json::Str(self.description.clone())));
        members.push(("parameters".to_owned(), self.parameters.deep_copy()));
        proof {
            lemma_obj_view(members@);
            assert(obj_view(members@)[0] == ("name"@, JsonV::Str(self@.name)));
            assert(obj_view(members@)[1] == ("description"@, JsonV::Str(self@.description)));
            assert(obj_view(members@)[2] == ("parameters"@, self@.parameters));
            assert(obj_view(members@) =~= spec_json_of_tool(self@)->Obj_0);
        }
        Json::Obj(members)
    }
}

/// The document structure of an identity card: one object with the four
/// members, in this order.
pub open spec fn spec_json_of_registration(a: RegV) -> JsonV {
    JsonV::Obj(
        seq![
            ("app_id"@, JsonV::Str(a.app_id)),
            ("name"@, JsonV::Str(a.name)),
            ("socket_path"@, JsonV::Str(a.socket_path)),
            ("pid"@, JsonV::Int(a.pid)),
        ],
    )
}

/// What a document means as an identity card, if anything: an object whose
/// `app_id`, `name` and `socket_path` members are strings and whose `pid`
/// member is an unsigned 32-bit integer; members under other keys are
/// ignored; of members sharing a key the first counts.
pub open spec fn spec_registration_of_json(v: JsonV) -> Option<RegV> {
    match v {
        JsonV::Obj(o) => match (
            first_entry(o, "app_id"@),
            first_entry(o, "name"@),
            first_entry(o, "socket_path"@),
            first_entry(o, "pid"@),
        ) {
            (
                Some(JsonV::Str(aid)),
                Some(JsonV::Str(nm)),
                Some(JsonV::Str(sp)),
                Some(JsonV::Int(p)),
            ) => if 0 <= p <= u32::MAX {
                Some(RegV { app_id: aid, name: nm, socket_path: sp, pid: p })
            } else {
                None
            },
            _ => None,
        },
        _ => None,
    }
}

pub open spec fn opt_reg_view(r: Option<AppRegistration>) -> Option<RegV> {
    match r {
        Some(a) => Some(a@),
        None => None,
    }
}

impl AppRegistration {
    /// An identity card from the caller-chosen id, the human-readable name,
    /// the socket path, and the owning process id.
    pub fn new(app_id: &str, name: &str, socket_path: &str, pid: u32) -> (a: AppRegistration)
        ensures
            a@ == (RegV {
                app_id: app_id@,
                name: name@,
                socket_path: socket_path@,
                pid: pid as int,
            }),
    {
        AppRegistration {
            app_id: app_id.to_owned(),
            name: name.to_owned(),
            socket_path: socket_path.to_owned(),
            pid,
        }
    }

    /// Builds the document that carries this identity card.
    pub fn to_json(&self) -> (j: Json)
        ensures
            j@ == spec_json_of_registration(self@),
    {
        let mut members: Vec<(String, Json)> = Vec::new();
        members.push(("app_id".to_owned(), Json::Str(self.app_id.clone())));
        members.push(("name".to_owned(), Json::Str(self.name.clone())));
        members.push(("socket_path".to_owned(), Json::Str(self.socket_path.clone())));
        members.push(("pid".to_owned(), Json::Int(self.pid as i64)));
        proof {
            lemma_obj_view(members@);
            assert(obj_view(members@)[0] == ("app_id"@, JsonV::Str(self@.app_id)));
            assert(obj_view(members@)[1] == ("name"@, JsonV::Str(self@.name)));
            assert(obj_view(members@)[2] == ("socket_path"@, JsonV::Str(self@.socket_path)));
            assert(obj_view(members@)[3] == ("pid"@, JsonV::Int(self@.pid)));
            assert(obj_view(members@) =~= spec_json_of_registration(self@)->Obj_0);
        }
        Json::Obj(members)
    }

    /// The pretty-printed text under which this card is persisted: the
    /// pretty encoding of its document.
    pub fn registration_text(&self) -> (r: String)
        ensures
            r@ == pretty_encode_of(spec_json_of_registration(self@)),
    {
        crate::text::json_to_pretty_text(&self.to_json())
    }

    /// The file path a card with this `app_id` is persisted under, inside
    /// registry directory `dir`: the id is the sole identity key, so two
    /// registrations with one id name one file.
    pub fn registration_path(dir: &str, app_id: &str) -> (p: String)
        ensures
            p@ == dir@ + "/"@ + app_id@ + ".json"@,
    {
        String::from_str(dir).concat("/").concat(app_id).concat(".json")
    }
}

/// The registry directory under a home directory.
pub fn registry_dir(home: &str) -> (p: String)
    ensures
        p@ == home@ + "/.proprio/registry"@,
{
    String::from_str(home).concat("/.proprio/registry")
}

/// Reads an identity card out of a document, exactly as
/// [`spec_registration_of_json`] says.
#[verifier::loop_isolation(false)]
pub fn registration_of_json(j: Json) -> (r: Option<AppRegistration>)
    ensures
        opt_reg_view(r) == spec_registration_of_json(j@),
{
    let mut entries: Vec<(String, Json)> = match j {
        Json::Obj(entries) => entries,
        _ => {
            return None;
        },
    };
    let ghost orig = entries@;
    let ghost ov = obj_view(orig);
    proof {
        lemma_obj_view(orig);
        assert(ov.subrange(orig.len() as int, ov.len() as int) =~= Seq::<(
            Seq<char>,
            JsonV,
        )>::empty());
    }
    let key_app_id = "app_id".to_owned();
    let key_name = "name".to_owned();
    let key_socket_path = "socket_path".to_owned();
    let key_pid = "pid".to_owned();
    let mut f_app_id: Option<Json> = None;
    let mut f_name: Option<Json> = None;
    let mut f_socket_path: Option<Json> = None;
    let mut f_pid: Option<Json> = None;
    while entries.len() > 0
        invariant
            entries@.len() <= orig.len(),
            entries@ == orig.subrange(0, entries@.len() as int),
            opt_json_view(f_app_id) == first_entry(
                ov.subrange(entries@.len() as int, ov.len() as int),
                "app_id"@,
            ),
            opt_json_view(f_name) == first_entry(
                ov.subrange(entries@.len() as int, ov.len() as int),
                "name"@,
            ),
            opt_json_view(f_socket_path) == first_entry(
                ov.subrange(entries@.len() as int, ov.len() as int),
                "socket_path"@,
            ),
            opt_json_view(f_pid) == first_entry(
                ov.subrange(entries@.len() as int, ov.len() as int),
                "pid"@,
            ),
        decreases entries@.len(),
    {
        let ghost pre = entries@;
        let pair = match entries.pop() {
            Some(pair) => pair,
            None => {
                return None;
            },
        };
        proof {
            reveal_strlit("app_id");
            reveal_strlit("name");
            reveal_strlit("socket_path");
            reveal_strlit("pid");
            assert("app_id"@.len() == 6 && "name"@.len() == 4 && "socket_path"@.len() == 11
                && "pid"@.len() == 3);
            let k = entries@.len() as int;
            lemma_pop_prefix(orig, pre, entries@);
            assert(pair == orig[k]);
            lemma_suffix_step(ov, k);
            assert(ov[k] == (orig[k].0@, orig[k].1@));
        }
        if pair.0 == key_app_id {
            f_app_id = Some(pair.1);
        } else if pair.0 == key_name {
            f_name = Some(pair.1);
        } else if pair.0 == key_socket_path {
            f_socket_path = Some(pair.1);
        } else if pair.0 == key_pid {
            f_pid = Some(pair.1);
        }
    }
    proof {
        assert(ov.subrange(0, ov.len() as int) =~= ov);
    }
    let app_id = match f_app_id {
        Some(Json::Str(s)) => s,
        _ => {
            return None;
        },
    };
    let name = match f_name {
        Some(Json::Str(s)) => s,
        _ => {
            return None;
        },
    };
    let socket_path = match f_socket_path {
        Some(Json::Str(s)) => s,
        _ => {
            return None;
        },
    };
    let pid: u32 = match f_pid {
        Some(Json::Int(i)) => if 0 <= i && i <= u32::MAX as i64 {
            i as u32
        } else {
            return None;
        },
        Some(Json::UInt(u)) => if u <= u32::MAX as u64 {
            u as u32
        } else {
            return None;
        },
        _ => {
            return None;
        },
    };
    Some(AppRegistration { app_id, name, socket_path, pid })
}

/// What one file's text means as an identity card, if anything: the text
/// must decode to one document, and that document must be a card's.
pub open spec fn spec_parse_registration(s: Seq<char>) -> Option<RegV> {
    match decode_of(s) {
        Some(v) => spec_registration_of_json(v),
        None => None,
    }
}

/// Reads one file's text as an identity card, exactly as
/// [`spec_parse_registration`] says.
pub fn parse_registration(s: &str) -> (r: Option<AppRegistration>)
    ensures
        opt_reg_view(r) == spec_parse_registration(s@),
{
    match crate::text::text_to_json(s) {
        Some(j) => registration_of_json(j),
        None => None,
    }
}

/// Round trip: reading back the document built from an identity card gives
/// the card.
pub proof fn lemma_registration_round_trip(a: RegV)
    requires
        0 <= a.pid <= u32::MAX,
    ensures
        spec_registration_of_json(spec_json_of_registration(a)) == Some(a),
{
    reveal_strlit("app_id");
    reveal_strlit("name");
    reveal_strlit("socket_path");
    reveal_strlit("pid");
    assert("app_id"@.len() == 6 && "name"@.len() == 4 && "socket_path"@.len() == 11 && "pid"@.len()
        == 3);
    let o = spec_json_of_registration(a)->Obj_0;
    assert(spec_json_of_registration(a) == JsonV::Obj(o));
    assert(o.len() == 4);
    assert(o[0] == ("app_id"@, JsonV::Str(a.app_id)));
    assert(o[1] == ("name"@, JsonV::Str(a.name)));
    assert(o[2] == ("socket_path"@, JsonV::Str(a.socket_path)));
    assert(o[3] == ("pid"@, JsonV::Int(a.pid)));
    let o1 = o.drop_first();
    let o2 = o1.drop_first();
    let o3 = o2.drop_first();
    assert(o1.len() == 3 && o1[0] == o[1] && o1[1] == o[2] && o1[2] == o[3]);
    assert(o2.len() == 2 && o2[0] == o[2] && o2[1] == o[3]);
    assert(o3.len() == 1 && o3[0] == o[3]);
    assert(first_entry(o, "app_id"@) == Some(JsonV::Str(a.app_id)));
    assert(first_entry(o1, "name"@) == Some(JsonV::Str(a.name)));
    assert(first_entry(o, "name"@) == first_entry(o1, "name"@));
    assert(first_entry(o2, "socket_path"@) == Some(JsonV::Str(a.socket_path)));
    assert(first_entry(o1, "socket_path"@) == first_entry(o2, "socket_path"@));
    assert(first_entry(o, "socket_path"@) == first_entry(o1, "socket_path"@));
    assert(first_entry(o3, "pid"@) == Some(JsonV::Int(a.pid)));
    assert(first_entry(o2, "pid"@) == first_entry(o3, "pid"@));
    assert(first_entry(o1, "pid"@) == first_entry(o2, "pid"@));
    assert(first_entry(o, "pid"@) == first_entry(o1, "pid"@));
    assert(spec_registration_of_json(JsonV::Obj(o)) matches Some(q) && q =~= a);
}

/// Whether a directory entry's file name is a registry record's: it ends in
/// `.json` and has a stem before the dot.
pub open spec fn spec_is_json_file(name: Seq<char>) -> bool {
    name.len() >= 6 && name.subrange(name.len() - 5, name.len() as int) == ".json"@
}

/// Checks a file name as [`spec_is_json_file`] says.
pub fn is_json_file(name: &str) -> (r: bool)
    ensures
        r == spec_is_json_file(name@),
{
    let n = name.unicode_len();
    if n < 6 {
        return false;
    }
    let tail = name.substring_char(n - 5, n);
    tail.to_owned() == ".json".to_owned()
}

/// The records that survive a scan: every outcome that parsed, in order.
pub open spec fn kept_views(s: Seq<Option<RegV>>) -> Seq<RegV>
    decreases s.len(),
{
    if s.len() == 0 {
        Seq::empty()
    } else {
        match s[0] {
            Some(a) => seq![a] + kept_views(s.drop_first()),
            None => kept_views(s.drop_first()),
        }
    }
}

/// The models of a sequence of parse outcomes, elementwise.
pub open spec fn outcome_views(s: Seq<Option<AppRegistration>>) -> Seq<Option<RegV>> {
    Seq::new(s.len(), |i: int| opt_reg_view(s[i]))
}

pub open spec fn reg_views(s: Seq<AppRegistration>) -> Seq<RegV> {
    Seq::new(s.len(), |i: int| s[i]@)
}

/// Keeps the outcomes that parsed, in order, dropping the failures.
#[verifier::loop_isolation(false)]
pub fn collect_registrations(outcomes: Vec<Option<AppRegistration>>) -> (r: Vec<AppRegistration>)
    ensures
        reg_views(r@) == kept_views(outcome_views(outcomes@)),
{
    let mut outcomes = outcomes;
    let ghost orig = outcomes@;
    let ghost ovs = outcome_views(orig);
    let mut result: Vec<AppRegistration> = Vec::new();
    proof {
        assert(ovs.subrange(orig.len() as int, ovs.len() as int) =~= Seq::<
            Option<RegV>,
        >::empty());
    }
    while outcomes.len() > 0
        invariant
            outcomes@.len() <= orig.len(),
            outcomes@ == orig.subrange(0, outcomes@.len() as int),
            reg_views(result@) == kept_views(ovs.subrange(outcomes@.len() as int, ovs.len() as int)),
        decreases outcomes@.len(),
    {
        let ghost pre = outcomes@;
        let outcome = match outcomes.pop() {
            Some(o) => o,
            None => {
                return result;
            },
        };
        proof {
            let k = outcomes@.len() as int;
            lemma_pop_prefix(orig, pre, outcomes@);
            assert(outcome == orig[k]);
            lemma_suffix_step(ovs, k);
            assert(ovs[k] == opt_reg_view(outcome));
        }
        match outcome {
            Some(a) => {
                let ghost prer = result@;
                result.insert(0, a);
                proof {
                    assert(result@ =~= seq![a] + prer);
                    assert(reg_views(result@) =~= seq![a@] + reg_views(prer));
                }
            },
            None => {},
        }
    }
    proof {
        assert(ovs.subrange(0, ovs.len() as int) =~= ovs);
    }
    result
}

/// The parse outcomes of a directory's entries, each given as its file name
/// and its content: one outcome per entry named like a record, in order;
/// entries named otherwise contribute nothing.
pub open spec fn scan_views(entries: Seq<(String, String)>) -> Seq<Option<RegV>>
    decreases entries.len(),
{
    if entries.len() == 0 {
        Seq::empty()
    } else {
        let rest = scan_views(entries.drop_last());
        if spec_is_json_file(entries.last().0@) {
            rest.push(spec_parse_registration(entries.last().1@))
        } else {
            rest
        }
    }
}

/// The stateless scan operation set over a registry directory's entries.
pub struct Registry;

impl Registry {
    /// The surviving identity cards of a registry directory: `None` stands
    /// for a directory that does not exist, a normal startup state that
    /// gives an empty list.  Of a directory's entries, each given as its
    /// file name and its content, exactly those named like records and
    /// whose content parses as a card survive, in the order given; the
    /// rest are silently skipped.
    #[verifier::loop_isolation(false)]
    pub fn list(entries: Option<&Vec<(String, String)>>) -> (r: Vec<AppRegistration>)
        ensures
            r@.len() == 0 <==> kept_views(scan_views(match entries {
                Some(es) => es@,
                None => Seq::empty(),
            })).len() == 0,
            reg_views(r@) == kept_views(scan_views(match entries {
                Some(es) => es@,
                None => Seq::empty(),
            })),
    {
        let entries = match entries {
            Some(es) => es,
            None => {
                let r: Vec<AppRegistration> = Vec::new();
                proof {
                    assert(reg_views(r@) =~= kept_views(scan_views(Seq::empty())));
                }
                return r;
            },
        };
        let mut outcomes: Vec<Option<AppRegistration>> = Vec::new();
        let mut i: usize = 0;
        while i < entries.len()
            invariant
                i <= entries@.len(),
                outcome_views(outcomes@) == scan_views(entries@.subrange(0, i as int)),
            decreases entries@.len() - i,
        {
            let ghost preo = outcomes@;
            if is_json_file(entries[i].0.as_str()) {
                outcomes.push(parse_registration(entries[i].1.as_str()));
            }
            proof {
                assert(entries@.subrange(0, i + 1).drop_last() =~= entries@.subrange(0, i as int));
                assert(entries@.subrange(0, i + 1).last() == entries@[i as int]);
                assert(outcome_views(outcomes@) =~= scan_views(entries@.subrange(0, i + 1)));
            }
            i = i + 1;
        }
        proof {
            assert(entries@.subrange(0, entries@.len() as int) =~= entries@);
        }
        collect_registrations(outcomes)
    }
}

} // verus!
