//! The storage model: the scenario catalogue's tables as plain in-memory
//! collections, and the aggregation logic that reads them.
//!
//! The backing store itself (a relational database behind a connection
//! pool) lives outside this crate; callers load rows into a [`Store`] or
//! hand the library the rows a query returned. Everything the service
//! decides about those rows is verified here.

use vstd::prelude::*;
use crate::scenario::{
    Publisher, PublisherModel, Region, RegionModel, Scenario, ScenarioDetail, ScenarioDetailModel,
    ScenarioModel, Sector, SectorModel, Stakeholder, StakeholderModel, region_models,
    sector_models, stakeholder_models,
};
use crate::user::{User, UserModel};
use crate::order::{dedup_sorted, lemma_map_values_multiset, lemma_no_duplicates_from_multiset,
    lemma_set_from_multiset, sort_by_name, sorted_by_key, string_views};
use crate::errors::{ApiError, ApiErrorModel};

verus! {

/// One row of a junction table: scenario `scenario_id` is associated with
/// the region, stakeholder or sector `entity_id`.
#[derive(Clone, Copy, Debug)]
pub struct ScenarioLink {
    pub scenario_id: i32,
    pub entity_id: i32,
}

/// The mathematical model of a [`ScenarioLink`].
pub ghost struct ScenarioLinkModel {
    pub scenario_id: int,
    pub entity_id: int,
}

impl View for ScenarioLink {
    type V = ScenarioLinkModel;

    open spec fn view(&self) -> ScenarioLinkModel {
        ScenarioLinkModel {
            scenario_id: self.scenario_id as int,
            entity_id: self.entity_id as int,
        }
    }
}

/// The models of a junction table's rows, in order.
pub open spec fn link_models(v: Seq<ScenarioLink>) -> Seq<ScenarioLinkModel> {
    v.map_values(|l: ScenarioLink| l@)
}

/// The models of the user table's rows, in order.
pub open spec fn user_models(v: Seq<User>) -> Seq<UserModel> {
    v.map_values(|u: User| u@)
}

/// The models of the publisher table's rows, in order.
pub open spec fn publisher_models(v: Seq<Publisher>) -> Seq<PublisherModel> {
    v.map_values(|p: Publisher| p@)
}

/// The models of the scenario table's rows, in order.
pub open spec fn scenario_models(v: Seq<Scenario>) -> Seq<ScenarioModel> {
    v.map_values(|s: Scenario| s@)
}

/// Whether a junction table holds a row linking `sid` to `eid`.
pub open spec fn links_contain(links: Seq<ScenarioLinkModel>, sid: int, eid: int) -> bool {
    exists|k: int|
        0 <= k < links.len() && links[k].scenario_id == sid && #[trigger] links[k].entity_id == eid
}

/// No two elements of the sequence are equal.
pub open spec fn distinct_ints(s: Seq<int>) -> bool {
    forall|i: int, j: int| #![trigger s[i], s[j]] 0 <= i < j < s.len() ==> s[i] != s[j]
}

/// The catalogue's tables, held as plain collections.
pub struct Store {
    pub scenarios: Vec<Scenario>,
    pub publishers: Vec<Publisher>,
    pub regions: Vec<Region>,
    pub stakeholders: Vec<Stakeholder>,
    pub sectors: Vec<Sector>,
    pub scenario_regions: Vec<ScenarioLink>,
    pub scenario_stakeholders: Vec<ScenarioLink>,
    pub scenario_sectors: Vec<ScenarioLink>,
    pub users: Vec<User>,
}

/// The mathematical model of a [`Store`]: each table as a sequence of row
/// models, in table order.
pub ghost struct StoreModel {
    pub scenarios: Seq<ScenarioModel>,
    pub publishers: Seq<PublisherModel>,
    pub regions: Seq<RegionModel>,
    pub stakeholders: Seq<StakeholderModel>,
    pub sectors: Seq<SectorModel>,
    pub scenario_regions: Seq<ScenarioLinkModel>,
    pub scenario_stakeholders: Seq<ScenarioLinkModel>,
    pub scenario_sectors: Seq<ScenarioLinkModel>,
    pub users: Seq<UserModel>,
}

impl View for Store {
    type V = StoreModel;

    open spec fn view(&self) -> StoreModel {
        StoreModel {
            scenarios: scenario_models(self.scenarios@),
            publishers: publisher_models(self.publishers@),
            regions: region_models(self.regions@),
            stakeholders: stakeholder_models(self.stakeholders@),
            sectors: sector_models(self.sectors@),
            scenario_regions: link_models(self.scenario_regions@),
            scenario_stakeholders: link_models(self.scenario_stakeholders@),
            scenario_sectors: link_models(self.scenario_sectors@),
            users: user_models(self.users@),
        }
    }
}

impl StoreModel {
    /// The ids of the scenario rows, in table order.
    pub open spec fn scenario_ids(self) -> Seq<int> {
        self.scenarios.map_values(|s: ScenarioModel| s.id)
    }

    /// The ids of the publisher rows, in table order.
    pub open spec fn publisher_ids(self) -> Seq<int> {
        self.publishers.map_values(|p: PublisherModel| p.id)
    }

    /// The usernames of the user rows, in table order.
    pub open spec fn usernames(self) -> Seq<Seq<char>> {
        self.users.map_values(|u: UserModel| u.username)
    }

    /// The email addresses of the user rows, in table order.
    pub open spec fn emails(self) -> Seq<Seq<char>> {
        self.users.map_values(|u: UserModel| u.email)
    }

    /// The ids of the region rows, in table order.
    pub open spec fn region_ids(self) -> Seq<int> {
        self.regions.map_values(|r: RegionModel| r.id)
    }

    /// The ids of the stakeholder rows, in table order.
    pub open spec fn stakeholder_ids(self) -> Seq<int> {
        self.stakeholders.map_values(|s: StakeholderModel| s.id)
    }

    /// The ids of the sector rows, in table order.
    pub open spec fn sector_ids(self) -> Seq<int> {
        self.sectors.map_values(|s: SectorModel| s.id)
    }

    /// The ids of the user rows, in table order.
    pub open spec fn user_ids(self) -> Seq<int> {
        self.users.map_values(|u: UserModel| u.id)
    }

    /// Well-formedness of the store: row identities are unique where the
    /// schema makes them so, and a scenario's publisher reference resolves.
    pub open spec fn wf(self) -> bool {
        &&& distinct_ints(self.scenario_ids())
        &&& distinct_ints(self.publisher_ids())
        &&& distinct_ints(self.region_ids())
        &&& distinct_ints(self.stakeholder_ids())
        &&& distinct_ints(self.sector_ids())
        &&& distinct_ints(self.user_ids())
        &&& (forall|i: int, j: int|
            0 <= i < j < self.users.len() ==> #[trigger] self.users[i].username != #[trigger] self.users[j].username)
        &&& (forall|i: int, j: int|
            0 <= i < j < self.users.len() ==> #[trigger] self.users[i].email != #[trigger] self.users[j].email)
        &&& (forall|i: int|
            0 <= i < self.scenarios.len() && (#[trigger] self.scenarios[i].publisher_id) is Some
                ==> self.has_publisher(self.scenarios[i].publisher_id->0))
    }

    /// Whether a scenario row with this id exists.
    pub open spec fn has_scenario(self, id: int) -> bool {
        exists|i: int| 0 <= i < self.scenarios.len() && (#[trigger] self.scenarios[i]).id == id
    }

    /// The scenario row with this id, where one exists.
    pub open spec fn spec_scenario(self, id: int) -> ScenarioModel {
        self.scenarios[choose|i: int|
            0 <= i < self.scenarios.len() && (#[trigger] self.scenarios[i]).id == id]
    }

    /// Whether a publisher row with this id exists.
    pub open spec fn has_publisher(self, id: int) -> bool {
        exists|i: int| 0 <= i < self.publishers.len() && (#[trigger] self.publishers[i]).id == id
    }

    /// The publisher row with this id, where one exists.
    pub open spec fn spec_publisher(self, id: int) -> PublisherModel {
        self.publishers[choose|i: int|
            0 <= i < self.publishers.len() && (#[trigger] self.publishers[i]).id == id]
    }

    /// Whether region `r` is associated with scenario `sid`.
    pub open spec fn region_linked(self, sid: int, r: RegionModel) -> bool {
        links_contain(self.scenario_regions, sid, r.id)
    }

    /// Whether stakeholder `s` is associated with scenario `sid`.
    pub open spec fn stakeholder_linked(self, sid: int, s: StakeholderModel) -> bool {
        links_contain(self.scenario_stakeholders, sid, s.id)
    }

    /// Whether sector `s` is associated with scenario `sid`.
    pub open spec fn sector_linked(self, sid: int, s: SectorModel) -> bool {
        links_contain(self.scenario_sectors, sid, s.id)
    }

    /// The regions associated with scenario `sid` among the first `n` rows
    /// of the region table, in table order.
    pub open spec fn spec_regions_of_upto(self, sid: int, n: int) -> Seq<RegionModel> {
        self.regions.take(n).filter(|r: RegionModel| self.region_linked(sid, r))
    }

    /// The regions associated with scenario `sid`, in table order.
    pub open spec fn spec_regions_of(self, sid: int) -> Seq<RegionModel> {
        self.spec_regions_of_upto(sid, self.regions.len() as int)
    }

    /// The stakeholders associated with scenario `sid` among the first `n`
    /// rows of the stakeholder table, in table order.
    pub open spec fn spec_stakeholders_of_upto(self, sid: int, n: int) -> Seq<StakeholderModel> {
        self.stakeholders.take(n).filter(|s: StakeholderModel| self.stakeholder_linked(sid, s))
    }

    /// The stakeholders associated with scenario `sid`, in table order.
    pub open spec fn spec_stakeholders_of(self, sid: int) -> Seq<StakeholderModel> {
        self.spec_stakeholders_of_upto(sid, self.stakeholders.len() as int)
    }

    /// The sectors associated with scenario `sid` among the first `n` rows
    /// of the sector table, in table order.
    pub open spec fn spec_sectors_of_upto(self, sid: int, n: int) -> Seq<SectorModel> {
        self.sectors.take(n).filter(|s: SectorModel| self.sector_linked(sid, s))
    }

    /// The sectors associated with scenario `sid`, in table order.
    pub open spec fn spec_sectors_of(self, sid: int) -> Seq<SectorModel> {
        self.spec_sectors_of_upto(sid, self.sectors.len() as int)
    }

    /// The nested detail for scenario `id`, where such a scenario exists:
    /// its own fields, its publisher exactly where its reference is
    /// present, and the three associated collections in table order.
    pub open spec fn spec_detail(self, id: int) -> ScenarioDetailModel {
        let s = self.spec_scenario(id);
        ScenarioDetailModel {
            id: s.id,
            title: s.title,
            kind: s.kind,
            temperature_target: s.temperature_target,
            description: s.description,
            published_date: s.published_date,
            target_year: s.target_year,
            publisher: if s.publisher_id is Some {
                Option::Some(self.spec_publisher(s.publisher_id->0))
            } else {
                Option::None
            },
            regions: self.spec_regions_of(id),
            stakeholders: self.spec_stakeholders_of(id),
            sectors: self.spec_sectors_of(id),
        }
    }
}

/// Whether a junction table (as stored) holds a row linking `sid` to `eid`.
fn links_contain_exec(links: &Vec<ScenarioLink>, sid: i32, eid: i32) -> (r: bool)
    ensures
        r == links_contain(link_models(links@), sid as int, eid as int),
{
    let ghost lm = link_models(links@);
    let mut k: usize = 0;
    while k < links.len()
        invariant
            0 <= k <= links.len(),
            lm == link_models(links@),
            forall|j: int| 0 <= j < k ==> !(lm[j].scenario_id == sid && #[trigger] lm[j].entity_id == eid),
        decreases links.len() - k,
    {
        let l = &links[k];
        if l.scenario_id == sid && l.entity_id == eid {
            assert(lm[k as int].scenario_id == sid && lm[k as int].entity_id == eid);
            return true;
        }
        k += 1;
    }
    false
}


/// The detail endpoint's merge step: one fetched scenario row, its
/// publisher where the fetch found one, and the three fetched collections,
/// combined into the nested record. An absent row means the not-found
/// error; a present row has every field and collection carried over
/// unchanged, in the order fetched.
pub fn merge_detail(
    scenario: Option<Scenario>,
    publisher: Option<Publisher>,
    regions: Vec<Region>,
    stakeholders: Vec<Stakeholder>,
    sectors: Vec<Sector>,
) -> (r: Result<ScenarioDetail, ApiError>)
    ensures
        (r is Ok) == (scenario is Some),
        scenario is None ==> (r matches Result::Err(e) && e@ == ApiErrorModel::NotFound(
            "Scenario not found"@,
        )),
        r matches Result::Ok(d) ==> d@.id == scenario->0@.id && d@.title == scenario->0@.title
            && d@.kind == scenario->0@.kind && d@.temperature_target
            == scenario->0@.temperature_target && d@.description == scenario->0@.description
            && d@.published_date == scenario->0@.published_date && d@.target_year
            == scenario->0@.target_year && d@.publisher == crate::scenario::opt_publisher_model(
            &publisher,
        ) && d@.regions == region_models(regions@) && d@.stakeholders == stakeholder_models(
            stakeholders@,
        ) && d@.sectors == sector_models(sectors@),
{
    let s = match scenario {
        Option::Some(s) => s,
        Option::None => {
            return Result::Err(ApiError::NotFoundError(String::from_str("Scenario not found")));
        },
    };
    Result::Ok(
        ScenarioDetail {
            id: s.id,
            title: s.title,
            kind: s.kind,
            temperature_target: s.temperature_target,
            description: s.description,
            published_date: s.published_date,
            target_year: s.target_year,
            publisher,
            regions,
            stakeholders,
            sectors,
        },
    )
}

impl Store {
    /// The index of the scenario row with this id, where one exists.
    fn find_scenario_index(&self, id: i32) -> (r: Option<usize>)
        ensures
            match r {
                Option::Some(ix) => ix < self.scenarios@.len() && self@.scenarios[ix as int].id
                    == id as int,
                Option::None => !self@.has_scenario(id as int),
            },
    {
        let mut i: usize = 0;
        while i < self.scenarios.len()
            invariant
                0 <= i <= self.scenarios.len(),
                forall|j: int| 0 <= j < i ==> (#[trigger] self@.scenarios[j]).id != id as int,
            decreases self.scenarios.len() - i,
        {
            if self.scenarios[i].id == id {
                return Option::Some(i);
            }
            i += 1;
        }
        Option::None
    }

    /// The publisher row with this id, where one exists.
    fn find_publisher(&self, id: i32) -> (r: Option<Publisher>)
        requires
            distinct_ints(self@.publisher_ids()),
        ensures
            (r is Some) == self@.has_publisher(id as int),
            r matches Option::Some(p) ==> p@ == self@.spec_publisher(id as int),
    {
        let mut i: usize = 0;
        while i < self.publishers.len()
            invariant
                0 <= i <= self.publishers.len(),
                distinct_ints(self@.publisher_ids()),
                forall|j: int| 0 <= j < i ==> (#[trigger] self@.publishers[j]).id != id as int,
            decreases self.publishers.len() - i,
        {
            if self.publishers[i].id == id {
                let p = self.publishers[i].clone();
                proof {
                    assert(self@.publishers[i as int].id == id as int);
                    assert(self@.has_publisher(id as int));
                    let w = choose|k: int|
                        0 <= k < self@.publishers.len() && (#[trigger] self@.publishers[k]).id
                            == id as int;
                    assert(self@.publisher_ids()[w] == self@.publishers[w].id);
                    assert(self@.publisher_ids()[i as int] == self@.publishers[i as int].id);
                    if w < i as int {
                        assert(self@.publisher_ids()[w] != self@.publisher_ids()[i as int]);
                    }
                    if (i as int) < w {
                        assert(self@.publisher_ids()[i as int] != self@.publisher_ids()[w]);
                    }
                    assert(w == i as int);
                }
                return Option::Some(p);
            }
            i += 1;
        }
        Option::None
    }

    /// The regions associated with scenario `sid`, in table order.
    fn regions_of(&self, sid: i32) -> (r: Vec<Region>)
        ensures
            region_models(r@) == self@.spec_regions_of(sid as int),
    {
        proof {
            reveal(Seq::filter);
        }
        let mut out: Vec<Region> = Vec::new();
        let mut i: usize = 0;
        while i < self.regions.len()
            invariant
                0 <= i <= self.regions.len(),
                region_models(out@) == self@.spec_regions_of_upto(sid as int, i as int),
            decreases self.regions.len() - i,
        {
            let rr = &self.regions[i];
            let linked = links_contain_exec(&self.scenario_regions, sid, rr.id);
            proof {
                reveal(Seq::filter);
                assert(self@.regions.take(i + 1).drop_last() =~= self@.regions.take(i as int));
                assert(self@.regions.take(i + 1).last() == self@.regions[i as int]);
            }
            if linked {
                out.push(rr.clone());
                proof {
                    assert(region_models(out@) =~= self@.spec_regions_of_upto(
                        sid as int,
                        i as int,
                    ).push(self@.regions[i as int]));
                }
            }
            i += 1;
        }
        proof {
            assert(self@.regions.take(self.regions@.len() as int) =~= self@.regions);
        }
        out
    }

    /// The stakeholders associated with scenario `sid`, in table order.
    fn stakeholders_of(&self, sid: i32) -> (r: Vec<Stakeholder>)
        ensures
            stakeholder_models(r@) == self@.spec_stakeholders_of(sid as int),
    {
        proof {
            reveal(Seq::filter);
        }
        let mut out: Vec<Stakeholder> = Vec::new();
        let mut i: usize = 0;
        while i < self.stakeholders.len()
            invariant
                0 <= i <= self.stakeholders.len(),
                stakeholder_models(out@) == self@.spec_stakeholders_of_upto(sid as int, i as int),
            decreases self.stakeholders.len() - i,
        {
            let rr = &self.stakeholders[i];
            let linked = links_contain_exec(&self.scenario_stakeholders, sid, rr.id);
            proof {
                reveal(Seq::filter);
                assert(self@.stakeholders.take(i + 1).drop_last() =~= self@.stakeholders.take(
                    i as int,
                ));
                assert(self@.stakeholders.take(i + 1).last() == self@.stakeholders[i as int]);
            }
            if linked {
                out.push(rr.clone());
                proof {
                    assert(stakeholder_models(out@) =~= self@.spec_stakeholders_of_upto(
                        sid as int,
                        i as int,
                    ).push(self@.stakeholders[i as int]));
                }
            }
            i += 1;
        }
        proof {
            assert(self@.stakeholders.take(self.stakeholders@.len() as int)
                =~= self@.stakeholders);
        }
        out
    }

    /// The sectors associated with scenario `sid`, in table order.
    fn sectors_of(&self, sid: i32) -> (r: Vec<Sector>)
        ensures
            sector_models(r@) == self@.spec_sectors_of(sid as int),
    {
        proof {
            reveal(Seq::filter);
        }
        let mut out: Vec<Sector> = Vec::new();
        let mut i: usize = 0;
        while i < self.sectors.len()
            invariant
                0 <= i <= self.sectors.len(),
                sector_models(out@) == self@.spec_sectors_of_upto(sid as int, i as int),
            decreases self.sectors.len() - i,
        {
            let rr = &self.sectors[i];
            let linked = links_contain_exec(&self.scenario_sectors, sid, rr.id);
            proof {
                reveal(Seq::filter);
                assert(self@.sectors.take(i + 1).drop_last() =~= self@.sectors.take(i as int));
                assert(self@.sectors.take(i + 1).last() == self@.sectors[i as int]);
            }
            if linked {
                out.push(rr.clone());
                proof {
                    assert(sector_models(out@) =~= self@.spec_sectors_of_upto(
                        sid as int,
                        i as int,
                    ).push(self@.sectors[i as int]));
                }
            }
            i += 1;
        }
        proof {
            assert(self@.sectors.take(self.sectors@.len() as int) =~= self@.sectors);
        }
        out
    }

    /// The detail endpoint's aggregation: the scenario row for `id`, its
    /// publisher exactly where its reference is present, and the three
    /// associated collections, merged into one nested record. Fails with
    /// the not-found error exactly when no scenario row has this id; all
    /// collections come in table order.
    pub fn get_detail(&self, id: i32) -> (r: Result<ScenarioDetail, ApiError>)
        requires
            self@.wf(),
        ensures
            (r is Ok) == self@.has_scenario(id as int),
            r matches Result::Ok(d) ==> d@ == self@.spec_detail(id as int),
            r matches Result::Err(e) ==> e@ == ApiErrorModel::NotFound("Scenario not found"@),
    {
        let ix = match self.find_scenario_index(id) {
            Option::Some(ix) => ix,
            Option::None => {
                return Result::Err(ApiError::NotFoundError(String::from_str("Scenario not found")));
            },
        };
        let s = &self.scenarios[ix];
        proof {
            assert(self@.scenarios[ix as int].id == id as int);
            assert(self@.has_scenario(id as int));
            let w = choose|k: int|
                0 <= k < self@.scenarios.len() && (#[trigger] self@.scenarios[k]).id == id as int;
            assert(self@.scenario_ids()[w] == self@.scenarios[w].id);
            assert(self@.scenario_ids()[ix as int] == self@.scenarios[ix as int].id);
            if w < ix as int {
                assert(self@.scenario_ids()[w] != self@.scenario_ids()[ix as int]);
            }
            if (ix as int) < w {
                assert(self@.scenario_ids()[ix as int] != self@.scenario_ids()[w]);
            }
            assert(self@.spec_scenario(id as int) == self@.scenarios[ix as int]);
        }
        let publisher = match s.publisher_id {
            Option::Some(pid) => {
                proof {
                    assert(self@.scenarios[ix as int].publisher_id is Some);
                }
                self.find_publisher(pid)
            },
            Option::None => Option::None,
        };
        let regions = self.regions_of(id);
        let stakeholders = self.stakeholders_of(id);
        let sectors = self.sectors_of(id);
        merge_detail(Option::Some(s.clone()), publisher, regions, stakeholders, sectors)
    }
}

/// LAW: for a stored scenario, the detail's three collections hold exactly
/// the rows the junction tables associate with it — membership, ignoring
/// order, is association and nothing else — and the embedded publisher is
/// present exactly where the scenario's publisher reference is.
pub proof fn lemma_detail_collections_exact(m: StoreModel, id: int)
    requires
        m.wf(),
        m.has_scenario(id),
    ensures
        forall|r: RegionModel| #[trigger] m.spec_detail(id).regions.contains(r) <==> (
        m.regions.contains(r) && links_contain(m.scenario_regions, id, r.id)),
        forall|s: StakeholderModel| #[trigger] m.spec_detail(id).stakeholders.contains(s) <==> (
        m.stakeholders.contains(s) && links_contain(m.scenario_stakeholders, id, s.id)),
        forall|c: SectorModel| #[trigger] m.spec_detail(id).sectors.contains(c) <==> (
        m.sectors.contains(c) && links_contain(m.scenario_sectors, id, c.id)),
        (m.spec_detail(id).publisher is Some) == (m.spec_scenario(id).publisher_id is Some),
{
    broadcast use vstd::prelude::Seq::lemma_filter_contains, vstd::prelude::Seq::lemma_filter_contains_rev, vstd::prelude::Seq::lemma_filter_pred;

    let rn = m.regions.len() as int;
    let kn = m.stakeholders.len() as int;
    let cn = m.sectors.len() as int;
    assert(m.regions.take(rn) =~= m.regions);
    assert(m.stakeholders.take(kn) =~= m.stakeholders);
    assert(m.sectors.take(cn) =~= m.sectors);
    assert forall|r: RegionModel| #[trigger] m.spec_detail(id).regions.contains(r) implies (
    m.regions.contains(r) && links_contain(m.scenario_regions, id, r.id)) by {
        let k = choose|k: int|
            0 <= k < m.spec_regions_of(id).len() && m.spec_regions_of(id)[k] == r;
        assert(m.spec_regions_of(id)[k] == r);
    };
    assert forall|r: RegionModel| (m.regions.contains(r) && links_contain(
        m.scenario_regions,
        id,
        r.id,
    )) implies #[trigger] m.spec_detail(id).regions.contains(r) by {
        let i = choose|i: int| 0 <= i < m.regions.len() && m.regions[i] == r;
        assert(m.regions.take(rn)[i] == r);
        assert(m.spec_regions_of(id).contains(m.regions.take(rn)[i]));
    };
    assert forall|s: StakeholderModel| #[trigger] m.spec_detail(id).stakeholders.contains(s)
        implies (m.stakeholders.contains(s) && links_contain(
        m.scenario_stakeholders,
        id,
        s.id,
    )) by {
        let k = choose|k: int|
            0 <= k < m.spec_stakeholders_of(id).len() && m.spec_stakeholders_of(id)[k] == s;
        assert(m.spec_stakeholders_of(id)[k] == s);
    };
    assert forall|s: StakeholderModel| (m.stakeholders.contains(s) && links_contain(
        m.scenario_stakeholders,
        id,
        s.id,
    )) implies #[trigger] m.spec_detail(id).stakeholders.contains(s) by {
        let i = choose|i: int| 0 <= i < m.stakeholders.len() && m.stakeholders[i] == s;
        assert(m.stakeholders.take(kn)[i] == s);
        assert(m.spec_stakeholders_of(id).contains(m.stakeholders.take(kn)[i]));
    };
    assert forall|c: SectorModel| #[trigger] m.spec_detail(id).sectors.contains(c) implies (
    m.sectors.contains(c) && links_contain(m.scenario_sectors, id, c.id)) by {
        let k = choose|k: int|
            0 <= k < m.spec_sectors_of(id).len() && m.spec_sectors_of(id)[k] == c;
        assert(m.spec_sectors_of(id)[k] == c);
    };
    assert forall|c: SectorModel| (m.sectors.contains(c) && links_contain(
        m.scenario_sectors,
        id,
        c.id,
    )) implies #[trigger] m.spec_detail(id).sectors.contains(c) by {
        let i = choose|i: int| 0 <= i < m.sectors.len() && m.sectors[i] == c;
        assert(m.sectors.take(cn)[i] == c);
        assert(m.spec_sectors_of(id).contains(m.sectors.take(cn)[i]));
    };
}

/// The filter-option bundle of the list page: every publisher, region,
/// stakeholder and sector, and the distinct scenario kinds and temperature
/// targets, each list sorted by name (or value) ascending.
#[derive(Debug)]
pub struct FilterOptions {
    pub publishers: Vec<Publisher>,
    pub regions: Vec<Region>,
    pub stakeholders: Vec<Stakeholder>,
    pub sectors: Vec<Sector>,
    pub kinds: Vec<String>,
    pub temperature_targets: Vec<String>,
}

impl StoreModel {
    /// The first `n` publisher rows as the option list carries them: name
    /// and id, the description left out.
    pub open spec fn spec_option_publishers_upto(self, n: int) -> Seq<PublisherModel> {
        self.publishers.take(n).map_values(
            |p: PublisherModel| PublisherModel { id: p.id, name: p.name, description: Option::None },
        )
    }

    /// The publisher rows as the option list carries them: name and id,
    /// the description left out.
    pub open spec fn spec_option_publishers(self) -> Seq<PublisherModel> {
        self.spec_option_publishers_upto(self.publishers.len() as int)
    }

    /// The kind values of the first `n` scenario rows, in table order,
    /// repeats included.
    pub open spec fn spec_kinds_upto(self, n: int) -> Seq<Seq<char>> {
        self.scenarios.take(n).map_values(|s: ScenarioModel| s.kind)
    }

    /// The kind values of the scenario rows, in table order, repeats
    /// included.
    pub open spec fn spec_kinds(self) -> Seq<Seq<char>> {
        self.spec_kinds_upto(self.scenarios.len() as int)
    }

    /// The temperature targets present on scenario rows among the first
    /// `n`, in table order, repeats included.
    pub open spec fn spec_temperature_targets_upto(self, n: int) -> Seq<Seq<char>> {
        self.scenarios.take(n).filter(|s: ScenarioModel| s.temperature_target is Some)
            .map_values(|s: ScenarioModel| s.temperature_target->0)
    }

    /// The temperature targets present on scenario rows, in table order,
    /// repeats included.
    pub open spec fn spec_temperature_targets(self) -> Seq<Seq<char>> {
        self.spec_temperature_targets_upto(self.scenarios.len() as int)
    }
}


/// Publisher option rows with pairwise-distinct ids are pairwise distinct.
proof fn lemma_option_publishers_no_duplicates(m: StoreModel)
    requires
        distinct_ints(m.publisher_ids()),
    ensures
        m.spec_option_publishers().no_duplicates(),
{
    assert(m.publishers.take(m.publishers.len() as int) =~= m.publishers);
    assert forall|i: int, j: int|
        0 <= i < m.spec_option_publishers().len() && 0 <= j < m.spec_option_publishers().len()
            && i != j implies m.spec_option_publishers()[i] != m.spec_option_publishers()[j] by {
        assert(m.spec_option_publishers()[i].id == m.publishers[i].id);
        assert(m.spec_option_publishers()[j].id == m.publishers[j].id);
        assert(m.publisher_ids()[i] == m.publishers[i].id);
        assert(m.publisher_ids()[j] == m.publishers[j].id);
        if i < j {
            assert(m.publisher_ids()[i] != m.publisher_ids()[j]);
        } else {
            assert(m.publisher_ids()[j] != m.publisher_ids()[i]);
        }
    }
}

/// Region rows with pairwise-distinct ids are pairwise distinct.
proof fn lemma_regions_no_duplicates(m: StoreModel)
    requires
        distinct_ints(m.region_ids()),
    ensures
        m.regions.no_duplicates(),
{
    assert forall|i: int, j: int|
        0 <= i < m.regions.len() && 0 <= j < m.regions.len() && i != j implies m.regions[i]
        != m.regions[j] by {
        assert(m.region_ids()[i] == m.regions[i].id);
        assert(m.region_ids()[j] == m.regions[j].id);
        if i < j {
            assert(m.region_ids()[i] != m.region_ids()[j]);
        } else {
            assert(m.region_ids()[j] != m.region_ids()[i]);
        }
    }
}

/// Stakeholder rows with pairwise-distinct ids are pairwise distinct.
proof fn lemma_stakeholders_no_duplicates(m: StoreModel)
    requires
        distinct_ints(m.stakeholder_ids()),
    ensures
        m.stakeholders.no_duplicates(),
{
    assert forall|i: int, j: int|
        0 <= i < m.stakeholders.len() && 0 <= j < m.stakeholders.len() && i != j implies m
        .stakeholders[i] != m.stakeholders[j] by {
        assert(m.stakeholder_ids()[i] == m.stakeholders[i].id);
        assert(m.stakeholder_ids()[j] == m.stakeholders[j].id);
        if i < j {
            assert(m.stakeholder_ids()[i] != m.stakeholder_ids()[j]);
        } else {
            assert(m.stakeholder_ids()[j] != m.stakeholder_ids()[i]);
        }
    }
}

/// Sector rows with pairwise-distinct ids are pairwise distinct.
proof fn lemma_sectors_no_duplicates(m: StoreModel)
    requires
        distinct_ints(m.sector_ids()),
    ensures
        m.sectors.no_duplicates(),
{
    assert forall|i: int, j: int|
        0 <= i < m.sectors.len() && 0 <= j < m.sectors.len() && i != j implies m.sectors[i]
        != m.sectors[j] by {
        assert(m.sector_ids()[i] == m.sectors[i].id);
        assert(m.sector_ids()[j] == m.sectors[j].id);
        if i < j {
            assert(m.sector_ids()[i] != m.sector_ids()[j]);
        } else {
            assert(m.sector_ids()[j] != m.sector_ids()[i]);
        }
    }
}

impl Store {
    /// The publisher option rows, in table order: name and id only.
    fn collect_option_publishers(&self) -> (r: Vec<Publisher>)
        ensures
            publisher_models(r@) == self@.spec_option_publishers(),
    {
        let mut out: Vec<Publisher> = Vec::new();
        let mut i: usize = 0;
        while i < self.publishers.len()
            invariant
                0 <= i <= self.publishers.len(),
                publisher_models(out@) == self@.spec_option_publishers_upto(i as int),
            decreases self.publishers.len() - i,
        {
            let ghost prev = out@;
            let p = &self.publishers[i];
            out.push(Publisher { id: p.id, name: p.name.clone(), description: Option::None });
            proof {
                assert(self@.publishers.len() == self.publishers@.len());
                assert(i as int <= self@.publishers.len());
                assert(self@.publishers.take(i as int).len() == i as int);
                assert(publisher_models(prev).len() == prev.len());
                assert(publisher_models(prev).len() == self@.spec_option_publishers_upto(
                    i as int,
                ).len());
                assert(prev.len() == i as int);
                assert forall|k: int| 0 <= k < out@.len() implies publisher_models(out@)[k]
                    == self@.spec_option_publishers_upto(i + 1)[k] by {
                    assert(self@.publishers.take(i + 1)[k] == self@.publishers[k]);
                    if k < i {
                        assert(publisher_models(prev)[k] == self@.spec_option_publishers_upto(
                            i as int,
                        )[k]);
                        assert(self@.publishers.take(i as int)[k] == self@.publishers[k]);
                    }
                }
                assert(publisher_models(out@) =~= self@.spec_option_publishers_upto(i + 1));
            }
            i += 1;
        }
        proof {
            assert(self@.publishers.take(self.publishers@.len() as int) =~= self@.publishers);
        }
        out
    }

    /// The region rows, duplicated for the caller, in table order.
    fn collect_regions(&self) -> (r: Vec<Region>)
        ensures
            region_models(r@) == self@.regions,
    {
        let mut out: Vec<Region> = Vec::new();
        let mut i: usize = 0;
        while i < self.regions.len()
            invariant
                0 <= i <= self.regions.len(),
                region_models(out@) == self@.regions.take(i as int),
            decreases self.regions.len() - i,
        {
            out.push(self.regions[i].clone());
            proof {
                assert(self@.regions.take(i + 1) =~= self@.regions.take(i as int).push(
                    self@.regions[i as int],
                ));
                assert(region_models(out@) =~= self@.regions.take(i + 1));
            }
            i += 1;
        }
        proof {
            assert(self@.regions.take(self.regions@.len() as int) =~= self@.regions);
        }
        out
    }

    /// The stakeholder rows, duplicated for the caller, in table order.
    fn collect_stakeholders(&self) -> (r: Vec<Stakeholder>)
        ensures
            stakeholder_models(r@) == self@.stakeholders,
    {
        let mut out: Vec<Stakeholder> = Vec::new();
        let mut i: usize = 0;
        while i < self.stakeholders.len()
            invariant
                0 <= i <= self.stakeholders.len(),
                stakeholder_models(out@) == self@.stakeholders.take(i as int),
            decreases self.stakeholders.len() - i,
        {
            out.push(self.stakeholders[i].clone());
            proof {
                assert(self@.stakeholders.take(i + 1) =~= self@.stakeholders.take(i as int).push(
                    self@.stakeholders[i as int],
                ));
                assert(stakeholder_models(out@) =~= self@.stakeholders.take(i + 1));
            }
            i += 1;
        }
        proof {
            assert(self@.stakeholders.take(self.stakeholders@.len() as int)
                =~= self@.stakeholders);
        }
        out
    }

    /// The sector rows, duplicated for the caller, in table order.
    fn collect_sectors(&self) -> (r: Vec<Sector>)
        ensures
            sector_models(r@) == self@.sectors,
    {
        let mut out: Vec<Sector> = Vec::new();
        let mut i: usize = 0;
        while i < self.sectors.len()
            invariant
                0 <= i <= self.sectors.len(),
                sector_models(out@) == self@.sectors.take(i as int),
            decreases self.sectors.len() - i,
        {
            out.push(self.sectors[i].clone());
            proof {
                assert(self@.sectors.take(i + 1) =~= self@.sectors.take(i as int).push(
                    self@.sectors[i as int],
                ));
                assert(sector_models(out@) =~= self@.sectors.take(i + 1));
            }
            i += 1;
        }
        proof {
            assert(self@.sectors.take(self.sectors@.len() as int) =~= self@.sectors);
        }
        out
    }

    /// The kind values of the scenario rows, in table order.
    fn collect_kinds(&self) -> (r: Vec<String>)
        ensures
            string_views(r@) == self@.spec_kinds(),
    {
        let mut out: Vec<String> = Vec::new();
        let mut i: usize = 0;
        proof {
            assert(string_views(out@) =~= self@.spec_kinds_upto(0));
        }
        while i < self.scenarios.len()
            invariant
                0 <= i <= self.scenarios.len(),
                string_views(out@) == self@.spec_kinds_upto(i as int),
            decreases self.scenarios.len() - i,
        {
            let ghost prev = out@;
            out.push(self.scenarios[i].kind.clone());
            proof {
                assert(self@.scenarios.len() == self.scenarios@.len());
                assert(i as int <= self@.scenarios.len());
                assert(self@.scenarios.take(i as int).len() == i as int);
                assert(string_views(prev).len() == prev.len());
                assert(string_views(prev).len() == self@.spec_kinds_upto(i as int).len());
                assert(prev.len() == i as int);
                assert forall|k: int| 0 <= k < out@.len() implies string_views(out@)[k]
                    == self@.spec_kinds_upto(i + 1)[k] by {
                    assert(self@.scenarios.take(i + 1)[k] == self@.scenarios[k]);
                    if k < i {
                        assert(string_views(prev)[k] == self@.spec_kinds_upto(i as int)[k]);
                        assert(self@.scenarios.take(i as int)[k] == self@.scenarios[k]);
                    }
                }
                assert(string_views(out@) =~= self@.spec_kinds_upto(i + 1));
            }
            i += 1;
        }
        proof {
            assert(self@.scenarios.take(self.scenarios@.len() as int) =~= self@.scenarios);
        }
        out
    }

    /// The temperature targets present on scenario rows, in table order.
    fn collect_temperature_targets(&self) -> (r: Vec<String>)
        ensures
            string_views(r@) == self@.spec_temperature_targets(),
    {
        proof {
            reveal(Seq::filter);
        }
        let mut out: Vec<String> = Vec::new();
        let mut i: usize = 0;
        while i < self.scenarios.len()
            invariant
                0 <= i <= self.scenarios.len(),
                string_views(out@) == self@.spec_temperature_targets_upto(i as int),
            decreases self.scenarios.len() - i,
        {
            proof {
                reveal(Seq::filter);
                assert(self@.scenarios.take(i + 1).drop_last() =~= self@.scenarios.take(
                    i as int,
                ));
                assert(self@.scenarios.take(i + 1).last() == self@.scenarios[i as int]);
            }
            match &self.scenarios[i].temperature_target {
                Option::Some(t) => {
                    out.push(t.clone());
                    proof {
                        assert(string_views(out@) =~= self@.spec_temperature_targets_upto(
                            i as int,
                        ).push(self@.scenarios[i as int].temperature_target->0));
                        assert(string_views(out@) =~= self@.spec_temperature_targets_upto(i + 1));
                    }
                },
                Option::None => {
                    proof {
                        assert(string_views(out@) =~= self@.spec_temperature_targets_upto(i + 1));
                    }
                },
            }
            i += 1;
        }
        proof {
            assert(self@.scenarios.take(self.scenarios@.len() as int) =~= self@.scenarios);
        }
        out
    }

    /// The filter options of the list page: every publisher (name and id),
    /// region, stakeholder and sector, each sorted by name ascending, and
    /// the distinct scenario kinds and distinct present temperature
    /// targets, sorted ascending. The fetches are independent of one
    /// another; each list answers only for its own table.
    pub fn get_filter_options(&self) -> (r: FilterOptions)
        requires
            self@.wf(),
        ensures
            publisher_models(r.publishers@).no_duplicates(),
            region_models(r.regions@).no_duplicates(),
            stakeholder_models(r.stakeholders@).no_duplicates(),
            sector_models(r.sectors@).no_duplicates(),
            sorted_by_key(r.publishers@),
            sorted_by_key(r.regions@),
            sorted_by_key(r.stakeholders@),
            sorted_by_key(r.sectors@),
            sorted_by_key(r.kinds@),
            sorted_by_key(r.temperature_targets@),
            publisher_models(r.publishers@).to_multiset() == self@.spec_option_publishers()
                .to_multiset(),
            region_models(r.regions@).to_multiset() == self@.regions.to_multiset(),
            stakeholder_models(r.stakeholders@).to_multiset() == self@.stakeholders.to_multiset(),
            sector_models(r.sectors@).to_multiset() == self@.sectors.to_multiset(),
            string_views(r.kinds@).no_duplicates(),
            string_views(r.kinds@).to_set() == self@.spec_kinds().to_set(),
            string_views(r.temperature_targets@).no_duplicates(),
            string_views(r.temperature_targets@).to_set() == self@.spec_temperature_targets()
                .to_set(),
    {
        let mut publishers = self.collect_option_publishers();
        let ghost p0 = publishers@;
        sort_by_name(&mut publishers);
        proof {
            lemma_map_values_multiset(publishers@, p0, |p: Publisher| p@);
            lemma_option_publishers_no_duplicates(self@);
            lemma_no_duplicates_from_multiset(
                self@.spec_option_publishers(),
                publisher_models(publishers@),
            );
        }
        let mut regions = self.collect_regions();
        let ghost r0 = regions@;
        sort_by_name(&mut regions);
        proof {
            lemma_map_values_multiset(regions@, r0, |x: Region| x@);
            lemma_regions_no_duplicates(self@);
            lemma_no_duplicates_from_multiset(self@.regions, region_models(regions@));
        }
        let mut stakeholders = self.collect_stakeholders();
        let ghost k0 = stakeholders@;
        sort_by_name(&mut stakeholders);
        proof {
            lemma_map_values_multiset(stakeholders@, k0, |x: Stakeholder| x@);
            lemma_stakeholders_no_duplicates(self@);
            lemma_no_duplicates_from_multiset(
                self@.stakeholders,
                stakeholder_models(stakeholders@),
            );
        }
        let mut sectors = self.collect_sectors();
        let ghost c0 = sectors@;
        sort_by_name(&mut sectors);
        proof {
            lemma_map_values_multiset(sectors@, c0, |x: Sector| x@);
            lemma_sectors_no_duplicates(self@);
            lemma_no_duplicates_from_multiset(self@.sectors, sector_models(sectors@));
        }
        let mut kind_values = self.collect_kinds();
        let ghost t0 = kind_values@;
        sort_by_name(&mut kind_values);
        let kinds = dedup_sorted(&kind_values);
        proof {
            lemma_map_values_multiset(kind_values@, t0, |x: String| x@);
            lemma_set_from_multiset(string_views(kind_values@), string_views(t0));
        }
        let mut target_values = self.collect_temperature_targets();
        let ghost g0 = target_values@;
        sort_by_name(&mut target_values);
        let temperature_targets = dedup_sorted(&target_values);
        proof {
            lemma_map_values_multiset(target_values@, g0, |x: String| x@);
            lemma_set_from_multiset(string_views(target_values@), string_views(g0));
        }
        FilterOptions { publishers, regions, stakeholders, sectors, kinds, temperature_targets }
    }
}

} // verus!
