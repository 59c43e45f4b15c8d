//! Schema normalization: from the decoded manifest tree to the in-memory
//! package records.
//!
//! Every optional metadata field tolerates the shapes enumerated in the
//! specification functions here; a `homepage` may be one string or a list,
//! `platforms` may be a string, a list, a list of lists or anything else
//! (kept as unrecognized), a `license` may be an object, a string, or a
//! nested mixture of both.  A field holding none of its recognized shapes
//! makes the whole decode fail, except `platforms`, which never fails.

use vstd::prelude::*;
use crate::json::{deep_entries, deep_seq, lemma_deep_entries, lemma_deep_seq, wf_keys, JTree,
    JsonVal, clone_tree};
use crate::resolve::str_eq;
use crate::PipeError;

verus! {

/// The shape of a decoded `homepage`: one string, or a list of strings.
pub enum HomeV {
    Single(Seq<char>),
    List(Seq<Seq<char>>),
}

/// The shape of a decoded `platforms` value, with an explicit arm for an
/// unrecognized shape.
pub enum PlatV {
    Single(Seq<char>),
    List(Seq<Seq<char>>),
    ListList(Seq<Seq<Seq<char>>>),
    Unknown(JTree),
}

/// The mathematical content of one package's metadata.
pub struct MetaV {
    pub broken: Option<bool>,
    pub insecure: Option<bool>,
    pub unsupported: Option<bool>,
    pub unfree: Option<bool>,
    pub description: Option<Seq<char>>,
    pub longdescription: Option<Seq<char>>,
    pub homepage: Option<HomeV>,
    pub maintainers: Option<JTree>,
    pub position: Option<Seq<char>>,
    pub license: Option<JTree>,
    pub platforms: Option<PlatV>,
}

/// The mathematical content of one package record.
pub struct RecV {
    pub attribute: Seq<char>,
    pub system: Seq<char>,
    pub pname: Seq<char>,
    pub version: Seq<char>,
    pub meta: MetaV,
}

/// A `homepage` value: one string, or a list of strings.
#[derive(Debug)]
pub enum StrOrVec {
    Single(String),
    List(Vec<String>),
}

/// A `platforms` value; an unrecognized shape keeps its tree and is later
/// stored as absent.
#[derive(Debug)]
pub enum Platform {
    Single(String),
    List(Vec<String>),
    ListList(Vec<Vec<String>>),
    Unknown(JsonVal),
}

/// One package's optional, heterogeneous metadata.
#[derive(Debug)]
pub struct PackageMeta {
    pub broken: Option<bool>,
    pub insecure: Option<bool>,
    pub unsupported: Option<bool>,
    pub unfree: Option<bool>,
    pub description: Option<String>,
    pub longdescription: Option<String>,
    pub homepage: Option<StrOrVec>,
    pub maintainers: Option<JsonVal>,
    pub position: Option<String>,
    pub license: Option<JsonVal>,
    pub platforms: Option<Platform>,
}

/// One package record: the attribute key and the core fields, owning its
/// metadata.
#[derive(Debug)]
pub struct PackageRecord {
    pub attribute: String,
    pub system: String,
    pub pname: String,
    pub version: String,
    pub meta: PackageMeta,
}

impl StrOrVec {
    pub open spec fn deep(self) -> HomeV {
        match self {
            StrOrVec::Single(s) => HomeV::Single(s@),
            StrOrVec::List(v) => HomeV::List(v@.map_values(|x: String| x@)),
        }
    }
}

impl Platform {
    pub open spec fn deep(self) -> PlatV {
        match self {
            Platform::Single(s) => PlatV::Single(s@),
            Platform::List(v) => PlatV::List(v@.map_values(|x: String| x@)),
            Platform::ListList(v) => PlatV::ListList(
                v@.map_values(|x: Vec<String>| x@.map_values(|y: String| y@)),
            ),
            Platform::Unknown(t) => PlatV::Unknown(t.deep()),
        }
    }
}

impl PackageMeta {
    pub open spec fn deep(self) -> MetaV {
        MetaV {
            broken: self.broken,
            insecure: self.insecure,
            unsupported: self.unsupported,
            unfree: self.unfree,
            description: match self.description {
                Some(s) => Some(s@),
                None => None,
            },
            longdescription: match self.longdescription {
                Some(s) => Some(s@),
                None => None,
            },
            homepage: match self.homepage {
                Some(h) => Some(h.deep()),
                None => None,
            },
            maintainers: match self.maintainers {
                Some(t) => Some(t.deep()),
                None => None,
            },
            position: match self.position {
                Some(s) => Some(s@),
                None => None,
            },
            license: match self.license {
                Some(t) => Some(t.deep()),
                None => None,
            },
            platforms: match self.platforms {
                Some(p) => Some(p.deep()),
                None => None,
            },
        }
    }
}

impl PackageRecord {
    pub open spec fn deep(self) -> RecV {
        RecV {
            attribute: self.attribute@,
            system: self.system@,
            pname: self.pname@,
            version: self.version@,
            meta: self.meta.deep(),
        }
    }
}

/// The sequence of record views of a decoded manifest.
pub open spec fn recs_deep(rs: Seq<PackageRecord>) -> Seq<RecV> {
    rs.map_values(|r: PackageRecord| r.deep())
}

/// The value of the first member named `key`, if any.
pub open spec fn spec_get(entries: Seq<(Seq<char>, JTree)>, key: Seq<char>) -> Option<JTree>
    decreases entries.len(),
{
    if entries.len() == 0 {
        None
    } else if entries[0].0 == key {
        Some(entries[0].1)
    } else {
        spec_get(entries.drop_first(), key)
    }
}

/// A tri-state flag member: absent or null is `None`, a boolean is kept,
/// and any other shape fails the decode.
pub open spec fn field_flag(entries: Seq<(Seq<char>, JTree)>, key: Seq<char>) -> Option<
    Option<bool>,
> {
    match spec_get(entries, key) {
        None => Some(None),
        Some(t) => match t {
            JTree::Null => Some(None),
            JTree::Bool { b } => Some(Some(b)),
            _ => None,
        },
    }
}

/// A passthrough text member: absent or null is `None`, a string is kept,
/// and any other shape fails the decode.
pub open spec fn field_text(entries: Seq<(Seq<char>, JTree)>, key: Seq<char>) -> Option<
    Option<Seq<char>>,
> {
    match spec_get(entries, key) {
        None => Some(None),
        Some(t) => match t {
            JTree::Null => Some(None),
            JTree::Str { text } => Some(Some(text)),
            _ => None,
        },
    }
}

/// Every item is a string.
pub open spec fn all_str(items: Seq<JTree>) -> bool {
    forall|i: int| 0 <= i < items.len() ==> (#[trigger] items[i]) is Str
}

/// The texts of a sequence of strings.
pub open spec fn strs_of(items: Seq<JTree>) -> Seq<Seq<char>> {
    items.map_values(|t: JTree| t->text)
}

/// Every item is a list of strings.
pub open spec fn all_str_list(items: Seq<JTree>) -> bool {
    forall|i: int| 0 <= i < items.len() ==> (#[trigger] items[i]) is Arr && all_str(
        items[i]->items,
    )
}

/// The `homepage` member: absent or null is `None`, a string or a list of
/// strings is kept, and any other shape fails the decode.
pub open spec fn field_homepage(entries: Seq<(Seq<char>, JTree)>) -> Option<Option<HomeV>> {
    match spec_get(entries, "homepage"@) {
        None => Some(None),
        Some(t) => match t {
            JTree::Null => Some(None),
            JTree::Str { text } => Some(Some(HomeV::Single(text))),
            JTree::Arr { items } => if all_str(items) {
                Some(Some(HomeV::List(strs_of(items))))
            } else {
                None
            },
            _ => None,
        },
    }
}

/// A member kept verbatim: absent or null is `None`, anything else keeps
/// its tree.
pub open spec fn field_keep(entries: Seq<(Seq<char>, JTree)>, key: Seq<char>) -> Option<JTree> {
    match spec_get(entries, key) {
        None => None,
        Some(t) => if t is Null {
            None
        } else {
            Some(t)
        },
    }
}

/// One member of a license object: the recognized keys must hold a value
/// of their declared type (or null); unknown keys may hold anything.
pub open spec fn lic_field_ok(key: Seq<char>, t: JTree) -> bool {
    if key == "free"@ {
        t is Bool || t is Null
    } else if key == "fullName"@ || key == "spdxId"@ || key == "url"@ {
        t is Str || t is Null
    } else {
        true
    }
}

/// A recognized license shape: a string, a license object, or a list
/// whose members are themselves recognized license shapes.
pub open spec fn license_ok(t: JTree) -> bool
    decreases t,
{
    match t {
        JTree::Str { .. } => true,
        JTree::Obj { entries } => forall|i: int|
            0 <= i < entries.len() ==> lic_field_ok(
                (#[trigger] entries[i]).0,
                entries[i].1,
            ),
        JTree::Arr { items } => forall|i: int|
            0 <= i < items.len() ==> license_ok(#[trigger] items[i]),
        _ => false,
    }
}

/// The `license` member: absent or null is `None`, a recognized shape is
/// kept verbatim, and any other shape fails the decode.
pub open spec fn field_license(entries: Seq<(Seq<char>, JTree)>) -> Option<Option<JTree>> {
    match spec_get(entries, "license"@) {
        None => Some(None),
        Some(t) => if t is Null {
            Some(None)
        } else if license_ok(t) {
            Some(Some(t))
        } else {
            None
        },
    }
}

/// The recognized shape of a `platforms` value; anything else is kept as
/// unrecognized rather than failing.
pub open spec fn classify_platform(t: JTree) -> PlatV {
    match t {
        JTree::Str { text } => PlatV::Single(text),
        JTree::Arr { items } => if all_str(items) {
            PlatV::List(strs_of(items))
        } else if all_str_list(items) {
            PlatV::ListList(items.map_values(|x: JTree| strs_of(x->items)))
        } else {
            PlatV::Unknown(t)
        },
        _ => PlatV::Unknown(t),
    }
}

/// The `platforms` member: absent or null is `None`; any present value is
/// classified and never fails.
pub open spec fn field_platforms(entries: Seq<(Seq<char>, JTree)>) -> Option<PlatV> {
    match spec_get(entries, "platforms"@) {
        None => None,
        Some(t) => if t is Null {
            None
        } else {
            Some(classify_platform(t))
        },
    }
}

/// The decoded metadata of one package, or `None` when a member other
/// than `platforms` holds an unrecognized shape.
pub open spec fn spec_meta(t: JTree) -> Option<MetaV> {
    match t {
        JTree::Obj { entries } => match (
            field_flag(entries, "broken"@),
            field_flag(entries, "insecure"@),
            field_flag(entries, "unsupported"@),
            field_flag(entries, "unfree"@),
        ) {
            (Some(broken), Some(insecure), Some(unsupported), Some(unfree)) => match (
                field_text(entries, "description"@),
                field_text(entries, "longDescription"@),
                field_text(entries, "position"@),
            ) {
                (Some(description), Some(longdescription), Some(position)) => match (
                    field_homepage(entries),
                    field_license(entries),
                ) {
                    (Some(homepage), Some(license)) => Some(
                        MetaV {
                            broken,
                            insecure,
                            unsupported,
                            unfree,
                            description,
                            longdescription,
                            homepage,
                            maintainers: field_keep(entries, "maintainers"@),
                            position,
                            license,
                            platforms: field_platforms(entries),
                        },
                    ),
                    _ => None,
                },
                _ => None,
            },
            _ => None,
        },
        _ => None,
    }
}

/// The decoded record for attribute `attr`: the three required strings,
/// and a `meta` member that must itself decode.
pub open spec fn spec_pkg(attr: Seq<char>, t: JTree) -> Option<RecV> {
    match t {
        JTree::Obj { entries } => match (
            spec_get(entries, "pname"@),
            spec_get(entries, "version"@),
            spec_get(entries, "system"@),
            spec_get(entries, "meta"@),
        ) {
            (
                Some(JTree::Str { text: pname }),
                Some(JTree::Str { text: version }),
                Some(JTree::Str { text: system }),
                Some(mt),
            ) => match spec_meta(mt) {
                Some(meta) => Some(RecV { attribute: attr, system, pname, version, meta }),
                None => None,
            },
            _ => None,
        },
        _ => None,
    }
}

/// The decoded records of the keyed package map, in member order.
pub open spec fn spec_pkgs(entries: Seq<(Seq<char>, JTree)>) -> Option<Seq<RecV>>
    decreases entries.len(),
{
    if entries.len() == 0 {
        Some(Seq::empty())
    } else {
        match (spec_pkgs(entries.drop_last()), spec_pkg(entries.last().0, entries.last().1)) {
            (Some(rest), Some(r)) => Some(rest.push(r)),
            _ => None,
        }
    }
}

/// The decoded manifest: an object whose `packages` member maps each
/// attribute to its package record.
pub open spec fn spec_manifest(t: JTree) -> Option<Seq<RecV>> {
    match t {
        JTree::Obj { entries } => match spec_get(entries, "packages"@) {
            Some(JTree::Obj { entries: pkgs }) => spec_pkgs(pkgs),
            _ => None,
        },
        _ => None,
    }
}

/// A value's deep view holds the same JSON kind as the value.
pub proof fn lemma_deep_kind(v: JsonVal)
    ensures
        (v.deep() is Null) == (v is Null),
        (v.deep() is Bool) == (v is Bool),
        (v.deep() is Num) == (v is Num),
        (v.deep() is Str) == (v is Str),
        (v.deep() is Arr) == (v is Arr),
        (v.deep() is Obj) == (v is Obj),
{
    match v {
        JsonVal::Null => {},
        JsonVal::Bool(_) => {},
        JsonVal::Num(_) => {},
        JsonVal::Str(_) => {},
        JsonVal::Arr(_) => {},
        JsonVal::Obj(_) => {},
    }
}

/// The first member named `name`, if any.
fn get_field<'a>(entries: &'a Vec<(String, JsonVal)>, name: &str) -> (r: Option<&'a JsonVal>)
    ensures
        match r {
            Some(v) => spec_get(deep_entries(entries@), name@) == Some(v.deep()),
            None => spec_get(deep_entries(entries@), name@) is None,
        },
{
    proof {
        lemma_deep_entries(entries@);
        assert(deep_entries(entries@).subrange(0, entries@.len() as int) =~= deep_entries(
            entries@,
        ));
    }
    let n = entries.len();
    let mut i: usize = 0;
    while i < n
        invariant
            n == entries@.len(),
            i <= n,
            deep_entries(entries@).len() == n,
            forall|j: int| 0 <= j < n ==> deep_entries(entries@)[j] == (
                entries@[j].0@,
                entries@[j].1.deep(),
            ),
            spec_get(deep_entries(entries@), name@) == spec_get(
                deep_entries(entries@).subrange(i as int, n as int),
                name@,
            ),
        decreases n - i,
    {
        let ghost suf = deep_entries(entries@).subrange(i as int, n as int);
        if str_eq(entries[i].0.as_str(), name) {
            proof {
                assert(suf.len() > 0);
                assert(suf[0] == (entries@[i as int].0@, entries@[i as int].1.deep()));
                assert(spec_get(suf, name@) == Some(entries@[i as int].1.deep()));
            }
            return Some(&entries[i].1);
        }
        proof {
            assert(suf[0] == (entries@[i as int].0@, entries@[i as int].1.deep()));
            assert(suf.drop_first() =~= deep_entries(entries@).subrange(i + 1, n as int));
        }
        i += 1;
    }
    proof {
        assert(deep_entries(entries@).subrange(n as int, n as int).len() == 0);
    }
    None
}

proof fn lemma_license_obj_witness(t: JTree, i: int)
    requires
        t is Obj,
        0 <= i < t->entries.len(),
        !lic_field_ok(t->entries[i].0, t->entries[i].1),
    ensures
        !license_ok(t),
{
}

proof fn lemma_license_arr_witness(t: JTree, i: int)
    requires
        t is Arr,
        0 <= i < t->items.len(),
        !license_ok(t->items[i]),
    ensures
        !license_ok(t),
{
}

/// Decides whether `t` holds a recognized license shape.
pub fn license_ok_exec(t: &JsonVal) -> (r: bool)
    ensures
        r == license_ok(t.deep()),
    decreases *t,
{
    match t {
        JsonVal::Str(_) => true,
        JsonVal::Obj(entries) => {
            let n = entries.len();
            proof {
                lemma_deep_entries(entries@);
            }
            let mut i: usize = 0;
            while i < n
                invariant
                    n == entries@.len(),
                    i <= n,
                    t.deep() == (JTree::Obj { entries: deep_entries(entries@) }),
                    deep_entries(entries@).len() == n,
                    forall|j: int| 0 <= j < n ==> deep_entries(entries@)[j] == (
                        entries@[j].0@,
                        entries@[j].1.deep(),
                    ),
                    forall|j: int| 0 <= j < i ==> lic_field_ok(
                        (#[trigger] deep_entries(entries@)[j]).0,
                        deep_entries(entries@)[j].1,
                    ),
                decreases n - i,
            {
                let key = entries[i].0.as_str();
                let val = &entries[i].1;
                proof {
                    lemma_deep_kind(*val);
                }
                let ok: bool = if str_eq(key, "free") {
                    match val {
                        JsonVal::Bool(_) => true,
                        JsonVal::Null => true,
                        _ => false,
                    }
                } else if str_eq(key, "fullName") || str_eq(key, "spdxId") || str_eq(key, "url") {
                    match val {
                        JsonVal::Str(_) => true,
                        JsonVal::Null => true,
                        _ => false,
                    }
                } else {
                    true
                };
                if !ok {
                    proof {
                        let ds = deep_entries(entries@);
                        assert(!lic_field_ok(ds[i as int].0, ds[i as int].1));
                        lemma_license_obj_witness(t.deep(), i as int);
                    }
                    return false;
                }
                i += 1;
            }
            true
        },
        JsonVal::Arr(items) => {
            let n = items.len();
            proof {
                lemma_deep_seq(items@);
                broadcast use vstd::std_specs::vec::axiom_vec_index_decreases;
                broadcast use vstd::seq::axiom_seq_index_decreases;

                assert forall|j: int| 0 <= j < n implies decreases_to!(*t => #[trigger] items@[j]) by {
                    assert(decreases_to!(*t => (*t)->Arr_0));
                    assert(decreases_to!((*t)->Arr_0 => (*t)->Arr_0@[j]));
                    assert((*t)->Arr_0@[j] == items@[j]);
                }
            }
            let mut i: usize = 0;
            while i < n
                invariant
                    n == items@.len(),
                    i <= n,
                    t.deep() == (JTree::Arr { items: deep_seq(items@) }),
                    deep_seq(items@).len() == n,
                    forall|j: int| 0 <= j < n ==> deep_seq(items@)[j] == items@[j].deep(),
                    forall|j: int| 0 <= j < n ==> decreases_to!(*t => #[trigger] items@[j]),
                    forall|j: int| 0 <= j < i ==> license_ok(#[trigger] deep_seq(items@)[j]),
                decreases n - i,
            {
                if !license_ok_exec(&items[i]) {
                    proof {
                        let ds = deep_seq(items@);
                        assert(!license_ok(ds[i as int]));
                        lemma_license_arr_witness(t.deep(), i as int);
                    }
                    return false;
                }
                i += 1;
            }
            true
        },
        _ => {
            proof {
                lemma_deep_kind(*t);
            }
            false
        },
    }
}

/// Collects the texts of a list of strings; `None` when some item is not
/// a string.
fn collect_strs(items: &Vec<JsonVal>) -> (r: Option<Vec<String>>)
    ensures
        match r {
            Some(v) => all_str(deep_seq(items@)) && v@.map_values(|x: String| x@) =~= strs_of(
                deep_seq(items@),
            ),
            None => !all_str(deep_seq(items@)),
        },
{
    proof {
        lemma_deep_seq(items@);
    }
    let n = items.len();
    let mut out: Vec<String> = Vec::new();
    let mut i: usize = 0;
    while i < n
        invariant
            n == items@.len(),
            i <= n,
            out@.len() == i,
            deep_seq(items@).len() == n,
            forall|j: int| 0 <= j < n ==> deep_seq(items@)[j] == items@[j].deep(),
            forall|j: int| 0 <= j < i ==> (#[trigger] deep_seq(items@)[j]) is Str,
            forall|j: int| 0 <= j < i ==> (#[trigger] out@[j])@ == deep_seq(items@)[j]->text,
        decreases n - i,
    {
        match &items[i] {
            JsonVal::Str(s) => {
                out.push(s.clone());
            },
            _ => {
                assert(!(deep_seq(items@)[i as int] is Str));
                return None;
            },
        }
        i += 1;
    }
    proof {
        assert(out@.map_values(|x: String| x@) =~= strs_of(deep_seq(items@)));
    }
    Some(out)
}

/// Classifies a present `platforms` value; never fails.
fn classify_platform_exec(t: &JsonVal) -> (p: Platform)
    ensures
        p.deep() == classify_platform(t.deep()),
{
    match t {
        JsonVal::Str(s) => {
            let p = Platform::Single(s.clone());
            proof {
                assert(p.deep() == classify_platform(t.deep()));
            }
            p
        },
        JsonVal::Arr(items) => {
            proof {
                lemma_deep_seq(items@);
                assert(t.deep() == JTree::Arr { items: deep_seq(items@) });
            }
            match collect_strs(items) {
                Some(v) => {
                    let p = Platform::List(v);
                    proof {
                        assert(p.deep() == classify_platform(t.deep()));
                    }
                    p
                },
                None => {
                    let n = items.len();
                    let mut out: Vec<Vec<String>> = Vec::new();
                    let mut i: usize = 0;
                    while i < n
                        invariant
                            n == items@.len(),
                            i <= n,
                            out@.len() == i,
                            t.deep() == (JTree::Arr { items: deep_seq(items@) }),
                            !all_str(deep_seq(items@)),
                            deep_seq(items@).len() == n,
                            forall|j: int| 0 <= j < n ==> deep_seq(items@)[j] == items@[j].deep(),
                            forall|j: int| 0 <= j < i ==> (#[trigger] deep_seq(items@)[j]) is Arr
                                && all_str(deep_seq(items@)[j]->items),
                            forall|j: int| 0 <= j < i ==> (#[trigger] out@[j])@.map_values(
                                |y: String| y@,
                            ) == strs_of(deep_seq(items@)[j]->items),
                        decreases n - i,
                    {
                        match &items[i] {
                            JsonVal::Arr(inner) => {
                                match collect_strs(inner) {
                                    Some(v) => {
                                        proof {
                                            assert(deep_seq(items@)[i as int]->items
                                                =~= deep_seq(inner@));
                                        }
                                        out.push(v);
                                    },
                                    None => {
                                        proof {
                                            assert(deep_seq(items@)[i as int]->items
                                                =~= deep_seq(inner@));
                                            assert(!all_str_list(deep_seq(items@)));
                                        }
                                        let p = clone_tree(t);
                                        let r = Platform::Unknown(p);
                                        proof {
                                            assert(r.deep() == classify_platform(t.deep()));
                                        }
                                        return r;
                                    },
                                }
                            },
                            _ => {
                                proof {
                                    lemma_deep_kind(items@[i as int]);
                                    assert(!((deep_seq(items@)[i as int]) is Arr));
                                    assert(!all_str_list(deep_seq(items@)));
                                }
                                let p = clone_tree(t);
                                let r = Platform::Unknown(p);
                                proof {
                                    assert(r.deep() == classify_platform(t.deep()));
                                }
                                return r;
                            },
                        }
                        i += 1;
                    }
                    let p = Platform::ListList(out);
                    proof {
                        assert(all_str_list(deep_seq(items@)));
                        assert(p->ListList_0@.map_values(
                            |x: Vec<String>| x@.map_values(|y: String| y@),
                        ) =~= deep_seq(items@).map_values(|x: JTree| strs_of(x->items)));
                        assert(p.deep() == classify_platform(t.deep()));
                    }
                    p
                },
            }
        },
        _ => {
            let p = clone_tree(t);
            let r = Platform::Unknown(p);
            proof {
                lemma_deep_kind(*t);
                assert(r.deep() == classify_platform(t.deep()));
            }
            r
        },
    }
}

/// Decodes one tri-state flag member.
fn decode_flag(entries: &Vec<(String, JsonVal)>, name: &str) -> (r: Result<Option<bool>, PipeError>)
    ensures
        match r {
            Ok(o) => field_flag(deep_entries(entries@), name@) == Some(o),
            Err(e) => e == PipeError::DecodeFailed && field_flag(
                deep_entries(entries@),
                name@,
            ) is None,
        },
{
    match get_field(entries, name) {
        None => Ok(None),
        Some(v) => match v {
            JsonVal::Null => Ok(None),
            JsonVal::Bool(b) => Ok(Some(*b)),
            _ => {
                proof {
                    lemma_deep_kind(*v);
                }
                Err(PipeError::DecodeFailed)
            },
        },
    }
}

/// Decodes one passthrough text member.
fn decode_text(entries: &Vec<(String, JsonVal)>, name: &str) -> (r: Result<
    Option<String>,
    PipeError,
>)
    ensures
        match r {
            Ok(o) => field_text(deep_entries(entries@), name@) == Some(
                match o {
                    Some(s) => Some(s@),
                    None => None,
                },
            ),
            Err(e) => e == PipeError::DecodeFailed && field_text(
                deep_entries(entries@),
                name@,
            ) is None,
        },
{
    match get_field(entries, name) {
        None => Ok(None),
        Some(v) => match v {
            JsonVal::Null => Ok(None),
            JsonVal::Str(s) => Ok(Some(s.clone())),
            _ => {
                proof {
                    lemma_deep_kind(*v);
                }
                Err(PipeError::DecodeFailed)
            },
        },
    }
}

/// Decodes one package's metadata.
#[verifier::rlimit(50)]
pub fn decode_meta(t: &JsonVal) -> (r: Result<PackageMeta, PipeError>)
    ensures
        match r {
            Ok(m) => spec_meta(t.deep()) == Some(m.deep()),
            Err(e) => e == PipeError::DecodeFailed && spec_meta(t.deep()) is None,
        },
{
    let entries = match t {
        JsonVal::Obj(entries) => entries,
        _ => {
            proof {
                lemma_deep_kind(*t);
            }
            return Err(PipeError::DecodeFailed);
        },
    };
    proof {
        assert(t.deep() == JTree::Obj { entries: deep_entries(entries@) });
    }
    let broken = match decode_flag(entries, "broken") {
        Ok(o) => o,
        Err(e) => {
            return Err(e);
        },
    };
    let insecure = match decode_flag(entries, "insecure") {
        Ok(o) => o,
        Err(e) => {
            return Err(e);
        },
    };
    let unsupported = match decode_flag(entries, "unsupported") {
        Ok(o) => o,
        Err(e) => {
            return Err(e);
        },
    };
    let unfree = match decode_flag(entries, "unfree") {
        Ok(o) => o,
        Err(e) => {
            return Err(e);
        },
    };
    let description = match decode_text(entries, "description") {
        Ok(o) => o,
        Err(e) => {
            return Err(e);
        },
    };
    let longdescription = match decode_text(entries, "longDescription") {
        Ok(o) => o,
        Err(e) => {
            return Err(e);
        },
    };
    let position = match decode_text(entries, "position") {
        Ok(o) => o,
        Err(e) => {
            return Err(e);
        },
    };
    let homepage = match get_field(entries, "homepage") {
        None => None,
        Some(v) => match v {
            JsonVal::Null => None,
            JsonVal::Str(s) => Some(StrOrVec::Single(s.clone())),
            JsonVal::Arr(items) => match collect_strs(items) {
                Some(strs) => {
                    proof {
                        assert(v.deep()->items =~= deep_seq(items@));
                    }
                    Some(StrOrVec::List(strs))
                },
                None => {
                    proof {
                        assert(v.deep()->items =~= deep_seq(items@));
                        assert(field_homepage(deep_entries(entries@)) is None);
                    }
                    return Err(PipeError::DecodeFailed);
                },
            },
            _ => {
                proof {
                    lemma_deep_kind(*v);
                }
                return Err(PipeError::DecodeFailed);
            },
        },
    };
    proof {
        assert(field_homepage(deep_entries(entries@)) == Some(
            match homepage {
                Some(h) => Some(h.deep()),
                None => None,
            },
        ));
    }
    let maintainers = match get_field(entries, "maintainers") {
        None => None,
        Some(v) => match v {
            JsonVal::Null => None,
            _ => {
                proof {
                    lemma_deep_kind(*v);
                }
                Some(clone_tree(v))
            },
        },
    };
    proof {
        assert(field_keep(deep_entries(entries@), "maintainers"@) == match maintainers {
            Some(x) => Some(x.deep()),
            None => None::<JTree>,
        });
    }
    let license = match get_field(entries, "license") {
        None => None,
        Some(v) => match v {
            JsonVal::Null => None,
            _ => {
                proof {
                    lemma_deep_kind(*v);
                }
                if license_ok_exec(v) {
                    Some(clone_tree(v))
                } else {
                    return Err(PipeError::DecodeFailed);
                }
            },
        },
    };
    proof {
        assert(field_license(deep_entries(entries@)) == Some(
            match license {
                Some(x) => Some(x.deep()),
                None => None::<JTree>,
            },
        ));
    }
    let platforms = match get_field(entries, "platforms") {
        None => None,
        Some(v) => match v {
            JsonVal::Null => None,
            _ => {
                proof {
                    lemma_deep_kind(*v);
                }
                Some(classify_platform_exec(v))
            },
        },
    };
    proof {
        assert(field_platforms(deep_entries(entries@)) == match platforms {
            Some(p) => Some(p.deep()),
            None => None::<PlatV>,
        });
    }
    let m = PackageMeta {
        broken,
        insecure,
        unsupported,
        unfree,
        description,
        longdescription,
        homepage,
        maintainers,
        position,
        license,
        platforms,
    };
    proof {
        assert(spec_meta(t.deep()) == Some(m.deep()));
    }
    Ok(m)
}

/// Decodes one package record for attribute `attr`.
pub fn decode_record(attr: &String, t: &JsonVal) -> (r: Result<PackageRecord, PipeError>)
    ensures
        match r {
            Ok(rec) => spec_pkg(attr@, t.deep()) == Some(rec.deep()),
            Err(e) => e == PipeError::DecodeFailed && spec_pkg(attr@, t.deep()) is None,
        },
{
    let entries = match t {
        JsonVal::Obj(entries) => entries,
        _ => {
            proof {
                lemma_deep_kind(*t);
            }
            return Err(PipeError::DecodeFailed);
        },
    };
    proof {
        assert(t.deep() == (JTree::Obj { entries: deep_entries(entries@) }));
    }
    let pname = match get_field(entries, "pname") {
        Some(v) => match v {
            JsonVal::Str(s) => s.clone(),
            _ => {
                proof {
                    lemma_deep_kind(*v);
                }
                return Err(PipeError::DecodeFailed);
            },
        },
        None => {
            return Err(PipeError::DecodeFailed);
        },
    };
    let version = match get_field(entries, "version") {
        Some(v) => match v {
            JsonVal::Str(s) => s.clone(),
            _ => {
                proof {
                    lemma_deep_kind(*v);
                }
                return Err(PipeError::DecodeFailed);
            },
        },
        None => {
            return Err(PipeError::DecodeFailed);
        },
    };
    let system = match get_field(entries, "system") {
        Some(v) => match v {
            JsonVal::Str(s) => s.clone(),
            _ => {
                proof {
                    lemma_deep_kind(*v);
                }
                return Err(PipeError::DecodeFailed);
            },
        },
        None => {
            return Err(PipeError::DecodeFailed);
        },
    };
    let mv = match get_field(entries, "meta") {
        Some(v) => v,
        None => {
            return Err(PipeError::DecodeFailed);
        },
    };
    let meta = match decode_meta(mv) {
        Ok(m) => m,
        Err(e) => {
            return Err(e);
        },
    };
    let rec = PackageRecord { attribute: attr.clone(), system, pname, version, meta };
    proof {
        assert(spec_get(deep_entries(entries@), "pname"@) == Some(
            JTree::Str { text: rec.pname@ },
        ));
        assert(spec_get(deep_entries(entries@), "version"@) == Some(
            JTree::Str { text: rec.version@ },
        ));
        assert(spec_get(deep_entries(entries@), "system"@) == Some(
            JTree::Str { text: rec.system@ },
        ));
        assert(spec_meta(mv.deep()) == Some(rec.meta.deep()));
        assert(spec_pkg(attr@, t.deep()) == Some(rec.deep()));
    }
    Ok(rec)
}

/// Decodes the whole manifest into its package records, in member order.
pub fn decode_manifest(doc: &JsonVal) -> (r: Result<Vec<PackageRecord>, PipeError>)
    ensures
        match r {
            Ok(recs) => spec_manifest(doc.deep()) == Some(recs_deep(recs@)),
            Err(e) => e == PipeError::DecodeFailed && spec_manifest(doc.deep()) is None,
        },
{
    let top = match doc {
        JsonVal::Obj(entries) => entries,
        _ => {
            proof {
                lemma_deep_kind(*doc);
            }
            return Err(PipeError::DecodeFailed);
        },
    };
    let pv = match get_field(top, "packages") {
        Some(v) => v,
        None => {
            return Err(PipeError::DecodeFailed);
        },
    };
    let pkgs = match pv {
        JsonVal::Obj(pkgs) => pkgs,
        _ => {
            proof {
                lemma_deep_kind(*pv);
            }
            return Err(PipeError::DecodeFailed);
        },
    };
    proof {
        lemma_deep_entries(pkgs@);
        assert(pv.deep() == (JTree::Obj { entries: deep_entries(pkgs@) }));
        assert(spec_manifest(doc.deep()) == spec_pkgs(deep_entries(pkgs@)));
        assert(deep_entries(pkgs@).subrange(0, 0) =~= Seq::<(Seq<char>, JTree)>::empty());
        assert(recs_deep(Seq::<PackageRecord>::empty()) =~= Seq::<RecV>::empty());
    }
    let n = pkgs.len();
    let mut out: Vec<PackageRecord> = Vec::new();
    let mut i: usize = 0;
    while i < n
        invariant
            n == pkgs@.len(),
            i <= n,
            out@.len() == i,
            spec_manifest(doc.deep()) == spec_pkgs(deep_entries(pkgs@)),
            deep_entries(pkgs@).len() == n,
            forall|j: int| 0 <= j < n ==> deep_entries(pkgs@)[j] == (
                pkgs@[j].0@,
                pkgs@[j].1.deep(),
            ),
            spec_pkgs(deep_entries(pkgs@).subrange(0, i as int)) == Some(recs_deep(out@)),
        decreases n - i,
    {
        let ghost pre = deep_entries(pkgs@).subrange(0, i as int);
        let rec = match decode_record(&pkgs[i].0, &pkgs[i].1) {
            Ok(rec) => rec,
            Err(e) => {
                proof {
                    lemma_spec_pkgs_fail(deep_entries(pkgs@), i as int);
                }
                return Err(e);
            },
        };
        out.push(rec);
        proof {
            let cur = deep_entries(pkgs@).subrange(0, i + 1);
            assert(cur.drop_last() =~= pre);
            assert(cur.last() == deep_entries(pkgs@)[i as int]);
            assert(recs_deep(out@) =~= recs_deep(out@.drop_last()).push(out@.last().deep()));
        }
        i += 1;
    }
    proof {
        assert(deep_entries(pkgs@).subrange(0, n as int) =~= deep_entries(pkgs@));
        assert(spec_manifest(doc.deep()) == Some(recs_deep(out@)));
    }
    Ok(out)
}

/// When one member's package fails to decode, the whole map fails.
proof fn lemma_spec_pkgs_fail(entries: Seq<(Seq<char>, JTree)>, i: int)
    requires
        0 <= i < entries.len(),
        spec_pkg(entries[i].0, entries[i].1) is None,
    ensures
        spec_pkgs(entries) is None,
    decreases entries.len(),
{
    if entries.len() > 0 {
        if i == entries.len() - 1 {
            assert(entries.last() == entries[i]);
        } else {
            assert(entries.drop_last()[i] == entries[i]);
            lemma_spec_pkgs_fail(entries.drop_last(), i);
        }
    }
}

/// The decoded records carry the map's keys as their attributes, in
/// order.
pub proof fn lemma_pkgs_attrs(entries: Seq<(Seq<char>, JTree)>, rs: Seq<RecV>)
    requires
        spec_pkgs(entries) == Some(rs),
    ensures
        rs.len() == entries.len(),
        forall|i: int| 0 <= i < rs.len() ==> (#[trigger] rs[i]).attribute == entries[i].0,
    decreases entries.len(),
{
    if entries.len() > 0 {
        let rest = spec_pkgs(entries.drop_last());
        match rest {
            Some(rr) => {
                lemma_pkgs_attrs(entries.drop_last(), rr);
                assert(forall|i: int|
                    0 <= i < entries.len() - 1 ==> entries.drop_last()[i] == entries[i]);
            },
            None => {
                assert(false);
            },
        }
    }
}

/// If a member's value is found by key and every member's value is
/// well-keyed, so is the found value.
proof fn lemma_spec_get_wf(entries: Seq<(Seq<char>, JTree)>, key: Seq<char>, u: JTree)
    requires
        spec_get(entries, key) == Some(u),
        forall|i: int| 0 <= i < entries.len() ==> wf_keys((#[trigger] entries[i]).1),
    ensures
        wf_keys(u),
    decreases entries.len(),
{
    if entries.len() > 0 {
        if entries[0].0 == key {
        } else {
            assert(forall|i: int|
                0 <= i < entries.drop_first().len() ==> entries.drop_first()[i]
                    == entries[i + 1]);
            lemma_spec_get_wf(entries.drop_first(), key, u);
        }
    }
}

/// In a well-keyed manifest the decoded attributes are pairwise distinct:
/// each is the key of its member in the keyed package map.
pub proof fn lemma_manifest_attrs_distinct(t: JTree, rs: Seq<RecV>)
    requires
        wf_keys(t),
        spec_manifest(t) == Some(rs),
    ensures
        forall|i: int, j: int|
            0 <= i < j < rs.len() ==> (#[trigger] rs[i]).attribute != (#[trigger] rs[j]).attribute,
{
    match t {
        JTree::Obj { entries } => {
            match spec_get(entries, "packages"@) {
                Some(p) => {
                    lemma_spec_get_wf(entries, "packages"@, p);
                    match p {
                        JTree::Obj { entries: pkgs } => {
                            lemma_pkgs_attrs(pkgs, rs);
                        },
                        _ => {
                            assert(false);
                        },
                    }
                },
                None => {
                    assert(false);
                },
            }
        },
        _ => {
            assert(false);
        },
    }
}

} // verus!
