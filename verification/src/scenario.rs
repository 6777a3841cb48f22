//! The scenario catalogue's entities and read projections.
//!
//! Dates and timestamps are held as plain integers: calendar dates as day
//! numbers, instants as seconds. The service only carries them through, so
//! no calendar arithmetic is needed here.

use vstd::prelude::*;
use vstd::string::StrSliceExecFns;
use crate::order::NameKey;

verus! {

/// A published climate scenario, as stored.
#[derive(Debug)]
pub struct Scenario {
    pub id: i32,
    pub title: String,
    pub kind: String,
    pub temperature_target: Option<String>,
    pub description: Option<String>,
    pub publisher_id: Option<i32>,
    pub published_date: Option<i64>,
    pub target_year: Option<i32>,
    pub created_at: i64,
    pub updated_at: i64,
}

/// The mathematical model of a [`Scenario`].
pub ghost struct ScenarioModel {
    pub id: int,
    pub title: Seq<char>,
    pub kind: Seq<char>,
    pub temperature_target: Option<Seq<char>>,
    pub description: Option<Seq<char>>,
    pub publisher_id: Option<int>,
    pub published_date: Option<int>,
    pub target_year: Option<int>,
    pub created_at: int,
    pub updated_at: int,
}

/// An organisation that publishes scenarios.
#[derive(Debug)]
pub struct Publisher {
    pub id: i32,
    pub name: String,
    pub description: Option<String>,
}

/// The mathematical model of a [`Publisher`].
pub ghost struct PublisherModel {
    pub id: int,
    pub name: Seq<char>,
    pub description: Option<Seq<char>>,
}

/// A geographic region; `parent_id` links a region to the one containing it.
#[derive(Debug)]
pub struct Region {
    pub id: i32,
    pub name: String,
    pub parent_id: Option<i32>,
}

/// The mathematical model of a [`Region`].
pub ghost struct RegionModel {
    pub id: int,
    pub name: Seq<char>,
    pub parent_id: Option<int>,
}

/// A stakeholder group a scenario is relevant to.
#[derive(Debug)]
pub struct Stakeholder {
    pub id: i32,
    pub name: String,
    pub kind: String,
}

/// The mathematical model of a [`Stakeholder`].
pub ghost struct StakeholderModel {
    pub id: int,
    pub name: Seq<char>,
    pub kind: Seq<char>,
}

/// An economic sector a scenario covers.
#[derive(Debug)]
pub struct Sector {
    pub id: i32,
    pub name: String,
}

/// The mathematical model of a [`Sector`].
pub ghost struct SectorModel {
    pub id: int,
    pub name: Seq<char>,
}

/// The nested read projection served for a single scenario: the scenario's
/// own fields, its publisher if it has one, and the associated regions,
/// stakeholders and sectors.
#[derive(Debug)]
pub struct ScenarioDetail {
    pub id: i32,
    pub title: String,
    pub kind: String,
    pub temperature_target: Option<String>,
    pub description: Option<String>,
    pub published_date: Option<i64>,
    pub target_year: Option<i32>,
    pub publisher: Option<Publisher>,
    pub regions: Vec<Region>,
    pub stakeholders: Vec<Stakeholder>,
    pub sectors: Vec<Sector>,
}

/// The mathematical model of a [`ScenarioDetail`].
pub ghost struct ScenarioDetailModel {
    pub id: int,
    pub title: Seq<char>,
    pub kind: Seq<char>,
    pub temperature_target: Option<Seq<char>>,
    pub description: Option<Seq<char>>,
    pub published_date: Option<int>,
    pub target_year: Option<int>,
    pub publisher: Option<PublisherModel>,
    pub regions: Seq<RegionModel>,
    pub stakeholders: Seq<StakeholderModel>,
    pub sectors: Seq<SectorModel>,
}

/// One row of the list response: the scenario's fields with the publisher
/// name flattened in.
#[derive(Debug)]
pub struct ScenarioListItem {
    pub id: i32,
    pub title: String,
    pub kind: String,
    pub temperature_target: Option<String>,
    pub description: Option<String>,
    pub publisher: Option<String>,
    pub published_date: Option<i64>,
    pub target_year: Option<i32>,
}

/// The mathematical model of a [`ScenarioListItem`].
pub ghost struct ScenarioListItemModel {
    pub id: int,
    pub title: Seq<char>,
    pub kind: Seq<char>,
    pub temperature_target: Option<Seq<char>>,
    pub description: Option<Seq<char>>,
    pub publisher: Option<Seq<char>>,
    pub published_date: Option<int>,
    pub target_year: Option<int>,
}

/// The model of an optional integer field.
pub open spec fn opt_i32_model(o: Option<i32>) -> Option<int> {
    match o {
        Option::Some(v) => Option::Some(v as int),
        Option::None => Option::None,
    }
}

/// The model of an optional day-number or timestamp field.
pub open spec fn opt_i64_model(o: Option<i64>) -> Option<int> {
    match o {
        Option::Some(v) => Option::Some(v as int),
        Option::None => Option::None,
    }
}

/// The model of an optional text field.
pub open spec fn opt_string_model(o: &Option<String>) -> Option<Seq<char>> {
    match o {
        Option::Some(s) => Option::Some(s@),
        Option::None => Option::None,
    }
}

impl View for Scenario {
    type V = ScenarioModel;

    open spec fn view(&self) -> ScenarioModel {
        ScenarioModel {
            id: self.id as int,
            title: self.title@,
            kind: self.kind@,
            temperature_target: opt_string_model(&self.temperature_target),
            description: opt_string_model(&self.description),
            publisher_id: opt_i32_model(self.publisher_id),
            published_date: opt_i64_model(self.published_date),
            target_year: opt_i32_model(self.target_year),
            created_at: self.created_at as int,
            updated_at: self.updated_at as int,
        }
    }
}

impl View for Publisher {
    type V = PublisherModel;

    open spec fn view(&self) -> PublisherModel {
        PublisherModel {
            id: self.id as int,
            name: self.name@,
            description: opt_string_model(&self.description),
        }
    }
}

impl View for Region {
    type V = RegionModel;

    open spec fn view(&self) -> RegionModel {
        RegionModel {
            id: self.id as int,
            name: self.name@,
            parent_id: opt_i32_model(self.parent_id),
        }
    }
}

impl View for Stakeholder {
    type V = StakeholderModel;

    open spec fn view(&self) -> StakeholderModel {
        StakeholderModel {
            id: self.id as int,
            name: self.name@,
            kind: self.kind@,
        }
    }
}

impl View for Sector {
    type V = SectorModel;

    open spec fn view(&self) -> SectorModel {
        SectorModel { id: self.id as int, name: self.name@ }
    }
}

/// The model of an optional publisher.
pub open spec fn opt_publisher_model(o: &Option<Publisher>) -> Option<PublisherModel> {
    match o {
        Option::Some(p) => Option::Some(p@),
        Option::None => Option::None,
    }
}

/// The models of the rows of a region vector, in order.
pub open spec fn region_models(v: Seq<Region>) -> Seq<RegionModel> {
    v.map_values(|r: Region| r@)
}

/// The models of the rows of a stakeholder vector, in order.
pub open spec fn stakeholder_models(v: Seq<Stakeholder>) -> Seq<StakeholderModel> {
    v.map_values(|s: Stakeholder| s@)
}

/// The models of the rows of a sector vector, in order.
pub open spec fn sector_models(v: Seq<Sector>) -> Seq<SectorModel> {
    v.map_values(|s: Sector| s@)
}

impl View for ScenarioDetail {
    type V = ScenarioDetailModel;

    open spec fn view(&self) -> ScenarioDetailModel {
        ScenarioDetailModel {
            id: self.id as int,
            title: self.title@,
            kind: self.kind@,
            temperature_target: opt_string_model(&self.temperature_target),
            description: opt_string_model(&self.description),
            published_date: opt_i64_model(self.published_date),
            target_year: opt_i32_model(self.target_year),
            publisher: opt_publisher_model(&self.publisher),
            regions: region_models(self.regions@),
            stakeholders: stakeholder_models(self.stakeholders@),
            sectors: sector_models(self.sectors@),
        }
    }
}

impl View for ScenarioListItem {
    type V = ScenarioListItemModel;

    open spec fn view(&self) -> ScenarioListItemModel {
        ScenarioListItemModel {
            id: self.id as int,
            title: self.title@,
            kind: self.kind@,
            temperature_target: opt_string_model(&self.temperature_target),
            description: opt_string_model(&self.description),
            publisher: opt_string_model(&self.publisher),
            published_date: opt_i64_model(self.published_date),
            target_year: opt_i32_model(self.target_year),
        }
    }
}

/// Duplicates an optional text field.
pub fn clone_opt_string(o: &Option<String>) -> (r: Option<String>)
    ensures
        opt_string_model(&r) == opt_string_model(o),
{
    match o {
        Option::Some(s) => Option::Some(s.clone()),
        Option::None => Option::None,
    }
}

impl Clone for Publisher {
    fn clone(&self) -> (r: Self)
        ensures
            r@ == self@,
    {
        Publisher {
            id: self.id,
            name: self.name.clone(),
            description: clone_opt_string(&self.description),
        }
    }
}

impl Clone for Region {
    fn clone(&self) -> (r: Self)
        ensures
            r@ == self@,
    {
        Region { id: self.id, name: self.name.clone(), parent_id: self.parent_id }
    }
}

impl Clone for Stakeholder {
    fn clone(&self) -> (r: Self)
        ensures
            r@ == self@,
    {
        Stakeholder {
            id: self.id,
            name: self.name.clone(),
            kind: self.kind.clone(),
        }
    }
}

impl Clone for Sector {
    fn clone(&self) -> (r: Self)
        ensures
            r@ == self@,
    {
        Sector { id: self.id, name: self.name.clone() }
    }
}

impl Clone for Scenario {
    fn clone(&self) -> (r: Self)
        ensures
            r@ == self@,
    {
        Scenario {
            id: self.id,
            title: self.title.clone(),
            kind: self.kind.clone(),
            temperature_target: clone_opt_string(&self.temperature_target),
            description: clone_opt_string(&self.description),
            publisher_id: self.publisher_id,
            published_date: self.published_date,
            target_year: self.target_year,
            created_at: self.created_at,
            updated_at: self.updated_at,
        }
    }
}

impl NameKey for Publisher {
    open spec fn key(&self) -> Seq<u8> {
        vstd::utf8::encode_utf8(self.name@)
    }

    fn key_bytes(&self) -> (r: Vec<u8>) {
        self.name.as_str().as_bytes_vec()
    }
}

impl NameKey for Region {
    open spec fn key(&self) -> Seq<u8> {
        vstd::utf8::encode_utf8(self.name@)
    }

    fn key_bytes(&self) -> (r: Vec<u8>) {
        self.name.as_str().as_bytes_vec()
    }
}

impl NameKey for Stakeholder {
    open spec fn key(&self) -> Seq<u8> {
        vstd::utf8::encode_utf8(self.name@)
    }

    fn key_bytes(&self) -> (r: Vec<u8>) {
        self.name.as_str().as_bytes_vec()
    }
}

impl NameKey for Sector {
    open spec fn key(&self) -> Seq<u8> {
        vstd::utf8::encode_utf8(self.name@)
    }

    fn key_bytes(&self) -> (r: Vec<u8>) {
        self.name.as_str().as_bytes_vec()
    }
}

} // verus!
