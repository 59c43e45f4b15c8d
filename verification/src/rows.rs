//! The relational shape of a snapshot: the rows the loader bulk-inserts
//! and the schema it creates.
//!
//! Each decoded record yields one `pkgs` row, one `meta` row and one
//! version-lookup row.  A tri-state flag is stored as 1 only when it is
//! present and true; of a `homepage` list only the first element is
//! retained; `maintainers` and `license` are stored as their serialized
//! text; an unrecognized `platforms` shape is stored as absent.

use vstd::prelude::*;
use crate::json::{spec_ser, json_to_text, clone_tree, wf_keys, JTree, JsonVal};
use crate::normalize::{lemma_manifest_attrs_distinct, spec_manifest, HomeV, MetaV, PackageRecord,
    Platform, PlatV, RecV, recs_deep, StrOrVec};

verus! {

/// One row of the `pkgs` table.
#[derive(Debug)]
pub struct PkgRow {
    pub attribute: String,
    pub system: String,
    pub pname: String,
    pub version: String,
}

/// One row of the `meta` table.
#[derive(Debug)]
pub struct MetaRow {
    pub attribute: String,
    pub broken: i64,
    pub insecure: i64,
    pub unsupported: i64,
    pub unfree: i64,
    pub description: Option<String>,
    pub longdescription: Option<String>,
    pub homepage: Option<String>,
    pub maintainers: Option<String>,
    pub position: Option<String>,
    pub license: Option<String>,
    pub platforms: Option<String>,
}

/// One row of the version-lookup `pkgs` table.
#[derive(Debug)]
pub struct VersionRow {
    pub attribute: String,
    pub pname: String,
    pub version: String,
}

/// The content of one `pkgs` row.
pub struct PkgRowV {
    pub attribute: Seq<char>,
    pub system: Seq<char>,
    pub pname: Seq<char>,
    pub version: Seq<char>,
}

/// The content of one `meta` row.
pub struct MetaRowV {
    pub attribute: Seq<char>,
    pub broken: int,
    pub insecure: int,
    pub unsupported: int,
    pub unfree: int,
    pub description: Option<Seq<char>>,
    pub longdescription: Option<Seq<char>>,
    pub homepage: Option<Seq<char>>,
    pub maintainers: Option<Seq<char>>,
    pub position: Option<Seq<char>>,
    pub license: Option<Seq<char>>,
    pub platforms: Option<Seq<char>>,
}

/// The content of one version-lookup row.
pub struct VersionRowV {
    pub attribute: Seq<char>,
    pub pname: Seq<char>,
    pub version: Seq<char>,
}

impl PkgRow {
    pub open spec fn deep(self) -> PkgRowV {
        PkgRowV {
            attribute: self.attribute@,
            system: self.system@,
            pname: self.pname@,
            version: self.version@,
        }
    }
}

impl MetaRow {
    pub open spec fn deep(self) -> MetaRowV {
        MetaRowV {
            attribute: self.attribute@,
            broken: self.broken as int,
            insecure: self.insecure as int,
            unsupported: self.unsupported as int,
            unfree: self.unfree as int,
            description: opt_text_deep(self.description),
            longdescription: opt_text_deep(self.longdescription),
            homepage: opt_text_deep(self.homepage),
            maintainers: opt_text_deep(self.maintainers),
            position: opt_text_deep(self.position),
            license: opt_text_deep(self.license),
            platforms: opt_text_deep(self.platforms),
        }
    }
}

impl VersionRow {
    pub open spec fn deep(self) -> VersionRowV {
        VersionRowV { attribute: self.attribute@, pname: self.pname@, version: self.version@ }
    }
}

/// The view of an optional text column.
pub open spec fn opt_text_deep(o: Option<String>) -> Option<Seq<char>> {
    match o {
        Some(s) => Some(s@),
        None => None,
    }
}

/// A tri-state flag as stored: 1 only when present and true.
pub open spec fn spec_flag_stored(f: Option<bool>) -> int {
    match f {
        Some(true) => 1,
        _ => 0,
    }
}

/// A `homepage` as stored: the string itself, or the first element of a
/// list, or absent for an empty list.
pub open spec fn spec_homepage_stored(h: Option<HomeV>) -> Option<Seq<char>> {
    match h {
        None => None,
        Some(HomeV::Single(s)) => Some(s),
        Some(HomeV::List(l)) => if l.len() == 0 {
            None
        } else {
            Some(l[0])
        },
    }
}

/// A verbatim tree as stored: its serialized text.
pub open spec fn spec_opt_ser(t: Option<JTree>) -> Option<Seq<char>> {
    match t {
        Some(x) => Some(spec_ser(x)),
        None => None,
    }
}

/// The tree a recognized `platforms` shape stands for.
pub open spec fn plat_tree(p: PlatV) -> JTree {
    match p {
        PlatV::Single(s) => JTree::Str { text: s },
        PlatV::List(l) => JTree::Arr { items: l.map_values(|x: Seq<char>| JTree::Str { text: x }) },
        PlatV::ListList(ll) => JTree::Arr {
            items: ll.map_values(
                |x: Seq<Seq<char>>| JTree::Arr {
                    items: x.map_values(|y: Seq<char>| JTree::Str { text: y }),
                },
            ),
        },
        PlatV::Unknown(t) => t,
    }
}

/// A `platforms` as stored: serialized text for a recognized shape,
/// absent for an unrecognized one.
pub open spec fn spec_platforms_stored(p: Option<PlatV>) -> Option<Seq<char>> {
    match p {
        None => None,
        Some(PlatV::Unknown(_)) => None,
        Some(q) => Some(spec_ser(plat_tree(q))),
    }
}

/// The `pkgs` row of one record.
pub open spec fn spec_pkg_row(r: RecV) -> PkgRowV {
    PkgRowV { attribute: r.attribute, system: r.system, pname: r.pname, version: r.version }
}

/// The `meta` row of one record.
pub open spec fn spec_meta_row(r: RecV) -> MetaRowV {
    MetaRowV {
        attribute: r.attribute,
        broken: spec_flag_stored(r.meta.broken),
        insecure: spec_flag_stored(r.meta.insecure),
        unsupported: spec_flag_stored(r.meta.unsupported),
        unfree: spec_flag_stored(r.meta.unfree),
        description: r.meta.description,
        longdescription: r.meta.longdescription,
        homepage: spec_homepage_stored(r.meta.homepage),
        maintainers: spec_opt_ser(r.meta.maintainers),
        position: r.meta.position,
        license: spec_opt_ser(r.meta.license),
        platforms: spec_platforms_stored(r.meta.platforms),
    }
}

/// The version-lookup row of one record.
pub open spec fn spec_version_row(r: RecV) -> VersionRowV {
    VersionRowV { attribute: r.attribute, pname: r.pname, version: r.version }
}

/// A tri-state flag as stored.
pub fn flag_stored(f: &Option<bool>) -> (r: i64)
    ensures
        r as int == spec_flag_stored(*f),
{
    match f {
        Some(true) => 1,
        _ => 0,
    }
}

/// A `homepage` as stored.
pub fn homepage_stored(h: &Option<StrOrVec>) -> (r: Option<String>)
    ensures
        opt_text_deep(r) == spec_homepage_stored(
            match *h {
                Some(x) => Some(x.deep()),
                None => None,
            },
        ),
{
    match h {
        None => None,
        Some(StrOrVec::Single(s)) => Some(s.clone()),
        Some(StrOrVec::List(l)) => {
            if l.len() == 0 {
                None
            } else {
                let r = Some(l[0].clone());
                proof {
                    assert(l@.map_values(|x: String| x@)[0] == l@[0]@);
                }
                r
            }
        },
    }
}

/// A verbatim tree as stored.
pub fn opt_ser(t: &Option<JsonVal>) -> (r: Option<String>)
    ensures
        opt_text_deep(r) == spec_opt_ser(
            match *t {
                Some(x) => Some(x.deep()),
                None => None,
            },
        ),
{
    match t {
        Some(x) => Some(json_to_text(x)),
        None => None,
    }
}

/// The plain tree a recognized `platforms` shape stands for.
fn plat_to_tree(p: &Platform) -> (t: JsonVal)
    ensures
        t.deep() == plat_tree(p.deep()),
{
    match p {
        Platform::Single(s) => JsonVal::Str(s.clone()),
        Platform::List(l) => {
            let n = l.len();
            let mut items: Vec<JsonVal> = Vec::new();
            let mut i: usize = 0;
            while i < n
                invariant
                    n == l@.len(),
                    i <= n,
                    items@.len() == i,
                    forall|j: int| 0 <= j < i ==> (#[trigger] items@[j]) == JsonVal::Str(l@[j]),
                decreases n - i,
            {
                items.push(JsonVal::Str(l[i].clone()));
                proof {
                    assert(items@[i as int] == JsonVal::Str(l@[i as int]));
                }
                i += 1;
            }
            let t = JsonVal::Arr(items);
            proof {
                crate::json::lemma_deep_seq(t->Arr_0@);
                assert(t.deep()->items =~= plat_tree(p.deep())->items);
                assert(t.deep() =~= plat_tree(p.deep()));
            }
            t
        },
        Platform::ListList(ll) => {
            let n = ll.len();
            let mut items: Vec<JsonVal> = Vec::new();
            let mut i: usize = 0;
            while i < n
                invariant
                    n == ll@.len(),
                    i <= n,
                    items@.len() == i,
                    forall|j: int| 0 <= j < i ==> (#[trigger] items@[j]).deep() == (JTree::Arr {
                        items: ll@[j]@.map_values(|y: String| y@).map_values(
                            |y: Seq<char>| JTree::Str { text: y },
                        ),
                    }),
                decreases n - i,
            {
                let inner = &ll[i];
                let m = inner.len();
                let mut row: Vec<JsonVal> = Vec::new();
                let mut k: usize = 0;
                while k < m
                    invariant
                        m == inner@.len(),
                        k <= m,
                        row@.len() == k,
                        forall|j: int| 0 <= j < k ==> (#[trigger] row@[j]) == JsonVal::Str(
                            inner@[j],
                        ),
                    decreases m - k,
                {
                    row.push(JsonVal::Str(inner[k].clone()));
                    proof {
                        assert(row@[k as int] == JsonVal::Str(inner@[k as int]));
                    }
                    k += 1;
                }
                let rt = JsonVal::Arr(row);
                proof {
                    crate::json::lemma_deep_seq(rt->Arr_0@);
                    assert(rt.deep()->items =~= inner@.map_values(|y: String| y@).map_values(
                        |y: Seq<char>| JTree::Str { text: y },
                    ));
                    assert(rt.deep() =~= (JTree::Arr {
                        items: inner@.map_values(|y: String| y@).map_values(
                            |y: Seq<char>| JTree::Str { text: y },
                        ),
                    }));
                }
                items.push(rt);
                i += 1;
            }
            let t = JsonVal::Arr(items);
            proof {
                crate::json::lemma_deep_seq(t->Arr_0@);
                assert(t.deep()->items =~= plat_tree(p.deep())->items);
                assert(t.deep() =~= plat_tree(p.deep()));
            }
            t
        },
        Platform::Unknown(v) => clone_tree(v),
    }
}

/// A `platforms` as stored.
pub fn platforms_stored(p: &Option<Platform>) -> (r: Option<String>)
    ensures
        opt_text_deep(r) == spec_platforms_stored(
            match *p {
                Some(x) => Some(x.deep()),
                None => None,
            },
        ),
{
    match p {
        None => None,
        Some(q) => match q {
            Platform::Unknown(_) => None,
            _ => {
                let t = plat_to_tree(q);
                Some(json_to_text(&t))
            },
        },
    }
}

/// The `pkgs` row of one record.
pub fn pkg_row(rec: &PackageRecord) -> (r: PkgRow)
    ensures
        r.deep() == spec_pkg_row(rec.deep()),
{
    PkgRow {
        attribute: rec.attribute.clone(),
        system: rec.system.clone(),
        pname: rec.pname.clone(),
        version: rec.version.clone(),
    }
}

/// The `meta` row of one record.
pub fn meta_row(rec: &PackageRecord) -> (r: MetaRow)
    ensures
        r.deep() == spec_meta_row(rec.deep()),
{
    let r = MetaRow {
        attribute: rec.attribute.clone(),
        broken: flag_stored(&rec.meta.broken),
        insecure: flag_stored(&rec.meta.insecure),
        unsupported: flag_stored(&rec.meta.unsupported),
        unfree: flag_stored(&rec.meta.unfree),
        description: match &rec.meta.description {
            Some(s) => Some(s.clone()),
            None => None,
        },
        longdescription: match &rec.meta.longdescription {
            Some(s) => Some(s.clone()),
            None => None,
        },
        homepage: homepage_stored(&rec.meta.homepage),
        maintainers: opt_ser(&rec.meta.maintainers),
        position: match &rec.meta.position {
            Some(s) => Some(s.clone()),
            None => None,
        },
        license: opt_ser(&rec.meta.license),
        platforms: platforms_stored(&rec.meta.platforms),
    };
    r
}

/// The version-lookup row of one record.
pub fn version_row(rec: &PackageRecord) -> (r: VersionRow)
    ensures
        r.deep() == spec_version_row(rec.deep()),
{
    VersionRow {
        attribute: rec.attribute.clone(),
        pname: rec.pname.clone(),
        version: rec.version.clone(),
    }
}

/// Everything the loader inserts for one snapshot.
#[derive(Debug)]
pub struct DbPlan {
    pub pkgs: Vec<PkgRow>,
    pub metas: Vec<MetaRow>,
    pub versions: Vec<VersionRow>,
}

/// The content of a load plan.
pub struct PlanV {
    pub pkgs: Seq<PkgRowV>,
    pub metas: Seq<MetaRowV>,
    pub versions: Seq<VersionRowV>,
}

impl DbPlan {
    pub open spec fn deep(self) -> PlanV {
        PlanV {
            pkgs: self.pkgs@.map_values(|r: PkgRow| r.deep()),
            metas: self.metas@.map_values(|r: MetaRow| r.deep()),
            versions: self.versions@.map_values(|r: VersionRow| r.deep()),
        }
    }
}

/// The load plan of a record sequence: one row per record in each table.
pub open spec fn spec_plan(rs: Seq<RecV>) -> PlanV {
    PlanV {
        pkgs: rs.map_values(|r: RecV| spec_pkg_row(r)),
        metas: rs.map_values(|r: RecV| spec_meta_row(r)),
        versions: rs.map_values(|r: RecV| spec_version_row(r)),
    }
}

/// Builds the load plan of the decoded records: one `pkgs` row, one
/// `meta` row and one version row per record, in record order.
pub fn build_plan(recs: &Vec<PackageRecord>) -> (p: DbPlan)
    ensures
        p.deep() == spec_plan(recs_deep(recs@)),
{
    let n = recs.len();
    let mut pkgs: Vec<PkgRow> = Vec::new();
    let mut metas: Vec<MetaRow> = Vec::new();
    let mut versions: Vec<VersionRow> = Vec::new();
    let mut i: usize = 0;
    while i < n
        invariant
            n == recs@.len(),
            i <= n,
            pkgs@.len() == i,
            metas@.len() == i,
            versions@.len() == i,
            forall|j: int| 0 <= j < i ==> (#[trigger] pkgs@[j]).deep() == spec_pkg_row(
                recs@[j].deep(),
            ),
            forall|j: int| 0 <= j < i ==> (#[trigger] metas@[j]).deep() == spec_meta_row(
                recs@[j].deep(),
            ),
            forall|j: int| 0 <= j < i ==> (#[trigger] versions@[j]).deep() == spec_version_row(
                recs@[j].deep(),
            ),
        decreases n - i,
    {
        pkgs.push(pkg_row(&recs[i]));
        metas.push(meta_row(&recs[i]));
        versions.push(version_row(&recs[i]));
        i += 1;
    }
    let p = DbPlan { pkgs, metas, versions };
    proof {
        assert(p.deep().pkgs =~= spec_plan(recs_deep(recs@)).pkgs);
        assert(p.deep().metas =~= spec_plan(recs_deep(recs@)).metas);
        assert(p.deep().versions =~= spec_plan(recs_deep(recs@)).versions);
        assert(p.deep() =~= spec_plan(recs_deep(recs@)));
    }
    p
}

/// Referential completeness of a load: a decoded manifest yields exactly
/// one `pkgs` row, one `meta` row and one version row per record — as
/// many as the manifest has attribute keys — the rows of each table are
/// keyed alike position by position, and in a well-keyed manifest the
/// attributes are pairwise distinct.
pub proof fn lemma_plan_referential_completeness(t: JTree, rs: Seq<RecV>)
    requires
        wf_keys(t),
        spec_manifest(t) == Some(rs),
    ensures
        spec_plan(rs).pkgs.len() == rs.len(),
        spec_plan(rs).metas.len() == rs.len(),
        spec_plan(rs).versions.len() == rs.len(),
        forall|i: int| 0 <= i < rs.len() ==> (#[trigger] spec_plan(rs).pkgs[i]).attribute
            == spec_plan(rs).metas[i].attribute && spec_plan(rs).pkgs[i].attribute == spec_plan(
            rs,
        ).versions[i].attribute,
        forall|i: int, j: int|
            0 <= i < j < rs.len() ==> (#[trigger] spec_plan(rs).pkgs[i]).attribute != (
            #[trigger] spec_plan(rs).pkgs[j]).attribute,
{
    lemma_manifest_attrs_distinct(t, rs);
    assert forall|i: int| 0 <= i < rs.len() implies (#[trigger] spec_plan(rs).pkgs[i]).attribute
        == rs[i].attribute && spec_plan(rs).metas[i].attribute == rs[i].attribute && spec_plan(
        rs,
    ).versions[i].attribute == rs[i].attribute by {
        assert(spec_plan(rs).pkgs[i] == spec_pkg_row(rs[i]));
        assert(spec_plan(rs).metas[i] == spec_meta_row(rs[i]));
        assert(spec_plan(rs).versions[i] == spec_version_row(rs[i]));
    }
}

/// The `pkgs` table of the primary database.
pub fn create_pkgs_table_sql() -> (r: &'static str)
    ensures
        r@ == "CREATE TABLE \"pkgs\" (\"attribute\" TEXT NOT NULL UNIQUE, \"system\" TEXT, \"pname\" TEXT, \"version\" TEXT, PRIMARY KEY(\"attribute\"))"@,
{
    "CREATE TABLE \"pkgs\" (\"attribute\" TEXT NOT NULL UNIQUE, \"system\" TEXT, \"pname\" TEXT, \"version\" TEXT, PRIMARY KEY(\"attribute\"))"
}

/// The `meta` table of the primary database.
pub fn create_meta_table_sql() -> (r: &'static str)
    ensures
        r@ == "CREATE TABLE \"meta\" (\"attribute\" TEXT NOT NULL UNIQUE, \"broken\" INTEGER, \"insecure\" INTEGER, \"unsupported\" INTEGER, \"unfree\" INTEGER, \"description\" TEXT, \"longdescription\" TEXT, \"homepage\" TEXT, \"maintainers\" JSON, \"position\" TEXT, \"license\" JSON, \"platforms\" JSON, FOREIGN KEY(\"attribute\") REFERENCES \"pkgs\"(\"attribute\"), PRIMARY KEY(\"attribute\"))"@,
{
    "CREATE TABLE \"meta\" (\"attribute\" TEXT NOT NULL UNIQUE, \"broken\" INTEGER, \"insecure\" INTEGER, \"unsupported\" INTEGER, \"unfree\" INTEGER, \"description\" TEXT, \"longdescription\" TEXT, \"homepage\" TEXT, \"maintainers\" JSON, \"position\" TEXT, \"license\" JSON, \"platforms\" JSON, FOREIGN KEY(\"attribute\") REFERENCES \"pkgs\"(\"attribute\"), PRIMARY KEY(\"attribute\"))"
}

/// The unique index on `pkgs.attribute`.
pub fn create_pkgs_index_sql() -> (r: &'static str)
    ensures
        r@ == "CREATE UNIQUE INDEX \"attributes\" ON \"pkgs\" (\"attribute\")"@,
{
    "CREATE UNIQUE INDEX \"attributes\" ON \"pkgs\" (\"attribute\")"
}

/// The unique index on `meta.attribute`.
pub fn create_meta_index_sql() -> (r: &'static str)
    ensures
        r@ == "CREATE UNIQUE INDEX \"metaattributes\" ON \"meta\" (\"attribute\")"@,
{
    "CREATE UNIQUE INDEX \"metaattributes\" ON \"meta\" (\"attribute\")"
}

/// The non-unique index on `pkgs.pname`.
pub fn create_pname_index_sql() -> (r: &'static str)
    ensures
        r@ == "CREATE INDEX \"pnames\" ON \"pkgs\" (\"pname\")"@,
{
    "CREATE INDEX \"pnames\" ON \"pkgs\" (\"pname\")"
}

/// The `pkgs` table of the version-lookup database.
pub fn create_versions_table_sql() -> (r: &'static str)
    ensures
        r@ == "CREATE TABLE \"pkgs\" (\"attribute\" TEXT NOT NULL UNIQUE, \"pname\" TEXT, \"version\" TEXT, PRIMARY KEY(\"attribute\"))"@,
{
    "CREATE TABLE \"pkgs\" (\"attribute\" TEXT NOT NULL UNIQUE, \"pname\" TEXT, \"version\" TEXT, PRIMARY KEY(\"attribute\"))"
}

/// The unique index on the version-lookup table's `attribute`.
pub fn create_versions_index_sql() -> (r: &'static str)
    ensures
        r@ == "CREATE UNIQUE INDEX \"attributes\" ON \"pkgs\" (\"attribute\")"@,
{
    "CREATE UNIQUE INDEX \"attributes\" ON \"pkgs\" (\"attribute\")"
}

/// The second index of the version-lookup table, as the loader creates
/// it: named after `pname` but over `attribute`.
pub fn create_versions_pname_index_sql() -> (r: &'static str)
    ensures
        r@ == "CREATE INDEX \"pnames\" ON \"pkgs\" (\"attribute\")"@,
{
    "CREATE INDEX \"pnames\" ON \"pkgs\" (\"attribute\")"
}

} // verus!
