//! The query composer: turns a sparse set of optional filters into one
//! parameterized query over the scenario store.
//!
//! The composed text starts from a fixed base query (scenarios joined
//! optionally to their publishers), appends exactly one `AND` clause per
//! present filter field in a fixed order, and closes with a fixed ordering
//! suffix. Filter values never enter the text: each clause ends in a
//! positional placeholder (`$1`, `$2`, ...), and the values are returned
//! separately, in placeholder order, for the store driver to bind.

use vstd::prelude::*;

verus! {

/// The optional filter criteria of the list endpoint; present fields are
/// combined conjunctively.
#[derive(Debug)]
pub struct ScenarioFilters {
    pub publisher_id: Option<i32>,
    pub region_id: Option<i32>,
    pub stakeholder_id: Option<i32>,
    pub sector_id: Option<i32>,
    pub kind: Option<String>,
    pub temperature_target: Option<String>,
    pub year_from: Option<i32>,
    pub year_to: Option<i32>,
}

/// The mathematical model of [`ScenarioFilters`].
pub ghost struct ScenarioFiltersModel {
    pub publisher_id: Option<int>,
    pub region_id: Option<int>,
    pub stakeholder_id: Option<int>,
    pub sector_id: Option<int>,
    pub kind: Option<Seq<char>>,
    pub temperature_target: Option<Seq<char>>,
    pub year_from: Option<int>,
    pub year_to: Option<int>,
}

impl View for ScenarioFilters {
    type V = ScenarioFiltersModel;

    open spec fn view(&self) -> ScenarioFiltersModel {
        ScenarioFiltersModel {
            publisher_id: crate::scenario::opt_i32_model(self.publisher_id),
            region_id: crate::scenario::opt_i32_model(self.region_id),
            stakeholder_id: crate::scenario::opt_i32_model(self.stakeholder_id),
            sector_id: crate::scenario::opt_i32_model(self.sector_id),
            kind: crate::scenario::opt_string_model(&self.kind),
            temperature_target: crate::scenario::opt_string_model(&self.temperature_target),
            year_from: crate::scenario::opt_i32_model(self.year_from),
            year_to: crate::scenario::opt_i32_model(self.year_to),
        }
    }
}

impl ScenarioFilters {
    /// The filter set with nothing present: it selects every scenario.
    pub fn none() -> (r: ScenarioFilters)
        ensures
            forall|i: int| 0 <= i < 8 ==> !field_present(r@, i),
    {
        ScenarioFilters {
            publisher_id: Option::None,
            region_id: Option::None,
            stakeholder_id: Option::None,
            sector_id: Option::None,
            kind: Option::None,
            temperature_target: Option::None,
            year_from: Option::None,
            year_to: Option::None,
        }
    }
}

/// One value to bind positionally to the composed query.
#[derive(Debug)]
pub enum QueryParam {
    IntValue(i32),
    TextValue(String),
}

/// The mathematical model of a [`QueryParam`].
pub ghost enum QueryParamModel {
    IntValue(int),
    TextValue(Seq<char>),
}

impl View for QueryParam {
    type V = QueryParamModel;

    open spec fn view(&self) -> QueryParamModel {
        match self {
            QueryParam::IntValue(v) => QueryParamModel::IntValue(*v as int),
            QueryParam::TextValue(s) => QueryParamModel::TextValue(s@),
        }
    }
}

/// The models of a parameter vector, in binding order.
pub open spec fn param_models(s: Seq<QueryParam>) -> Seq<QueryParamModel> {
    s.map_values(|p: QueryParam| p@)
}

/// Whether filter field `i` is present. The index fixes the clause order:
/// publisher, region, stakeholder, sector, kind, temperature target,
/// year lower bound, year upper bound.
pub open spec fn field_present(f: ScenarioFiltersModel, i: int) -> bool {
    if i == 0 {
        f.publisher_id is Some
    } else if i == 1 {
        f.region_id is Some
    } else if i == 2 {
        f.stakeholder_id is Some
    } else if i == 3 {
        f.sector_id is Some
    } else if i == 4 {
        f.kind is Some
    } else if i == 5 {
        f.temperature_target is Some
    } else if i == 6 {
        f.year_from is Some
    } else if i == 7 {
        f.year_to is Some
    } else {
        false
    }
}

/// The text of clause `i` up to its positional placeholder.
pub open spec fn field_prefix(i: int) -> Seq<char> {
    if i == 0 {
        " AND s.publisher_id = "@
    } else if i == 1 {
        " AND s.id IN (SELECT scenario_id FROM pbtar.scenario_regions WHERE region_id = "@
    } else if i == 2 {
        " AND s.id IN (SELECT scenario_id FROM pbtar.scenario_stakeholders WHERE stakeholder_id = "@
    } else if i == 3 {
        " AND s.id IN (SELECT scenario_id FROM pbtar.scenario_sectors WHERE sector_id = "@
    } else if i == 4 {
        " AND s.type = "@
    } else if i == 5 {
        " AND s.temperature_target = "@
    } else if i == 6 {
        " AND s.target_year >= "@
    } else {
        " AND s.target_year <= "@
    }
}

/// The text of clause `i` after its placeholder: the three junction
/// subqueries close a parenthesis, the rest add nothing.
pub open spec fn field_suffix(i: int) -> Seq<char> {
    if 1 <= i <= 3 {
        ")"@
    } else {
        ""@
    }
}

/// The value clause `i` binds, given that field `i` is present.
pub open spec fn field_param(f: ScenarioFiltersModel, i: int) -> QueryParamModel {
    if i == 0 {
        QueryParamModel::IntValue(f.publisher_id->0)
    } else if i == 1 {
        QueryParamModel::IntValue(f.region_id->0)
    } else if i == 2 {
        QueryParamModel::IntValue(f.stakeholder_id->0)
    } else if i == 3 {
        QueryParamModel::IntValue(f.sector_id->0)
    } else if i == 4 {
        QueryParamModel::TextValue(f.kind->0)
    } else if i == 5 {
        QueryParamModel::TextValue(f.temperature_target->0)
    } else if i == 6 {
        QueryParamModel::IntValue(f.year_from->0)
    } else {
        QueryParamModel::IntValue(f.year_to->0)
    }
}

/// How many of the fields before `i` are present.
pub open spec fn count_present_upto(f: ScenarioFiltersModel, i: int) -> int
    decreases i,
{
    if i <= 0 {
        0
    } else {
        count_present_upto(f, i - 1) + if field_present(f, i - 1) {
            1int
        } else {
            0int
        }
    }
}

/// How many filter fields are present in all.
pub open spec fn count_present(f: ScenarioFiltersModel) -> int {
    count_present_upto(f, 8)
}

/// At most one clause can come from each field.
pub proof fn lemma_count_present_upto_bound(f: ScenarioFiltersModel, i: int)
    requires
        0 <= i,
    ensures
        0 <= count_present_upto(f, i) <= i,
    decreases i,
{
    if i > 0 {
        lemma_count_present_upto_bound(f, i - 1);
    }
}

/// The decimal digit characters; clause positions stay below ten because
/// there are only eight filter fields.
pub open spec fn digit_char(d: int) -> char {
    if d == 1 {
        '1'
    } else if d == 2 {
        '2'
    } else if d == 3 {
        '3'
    } else if d == 4 {
        '4'
    } else if d == 5 {
        '5'
    } else if d == 6 {
        '6'
    } else if d == 7 {
        '7'
    } else if d == 8 {
        '8'
    } else if d == 9 {
        '9'
    } else {
        '0'
    }
}

/// The positional placeholder bound in clause text: `$` then the position.
pub open spec fn placeholder(n: int) -> Seq<char> {
    seq!['$', digit_char(n)]
}

/// The whole text of clause `i`: the comparison, the placeholder for its
/// position, and the closing suffix.
pub open spec fn clause_text(f: ScenarioFiltersModel, i: int) -> Seq<char> {
    field_prefix(i) + placeholder(1 + count_present_upto(f, i)) + field_suffix(i)
}

/// The concatenated clause text of the present fields before `i`, in field
/// order.
pub open spec fn clauses_upto(f: ScenarioFiltersModel, i: int) -> Seq<char>
    decreases i,
{
    if i <= 0 {
        Seq::empty()
    } else {
        clauses_upto(f, i - 1) + if field_present(f, i - 1) {
            clause_text(f, i - 1)
        } else {
            Seq::empty()
        }
    }
}

/// The clause texts of the present fields before `i`, one element per
/// present field, in field order.
pub open spec fn clause_list_upto(f: ScenarioFiltersModel, i: int) -> Seq<Seq<char>>
    decreases i,
{
    if i <= 0 {
        Seq::empty()
    } else {
        clause_list_upto(f, i - 1) + if field_present(f, i - 1) {
            seq![clause_text(f, i - 1)]
        } else {
            Seq::empty()
        }
    }
}

/// The clause texts of all present fields, in field order.
pub open spec fn clause_list(f: ScenarioFiltersModel) -> Seq<Seq<char>> {
    clause_list_upto(f, 8)
}

/// The bound values of the present fields before `i`, in field order.
pub open spec fn params_upto(f: ScenarioFiltersModel, i: int) -> Seq<QueryParamModel>
    decreases i,
{
    if i <= 0 {
        Seq::empty()
    } else {
        params_upto(f, i - 1) + if field_present(f, i - 1) {
            seq![field_param(f, i - 1)]
        } else {
            Seq::empty()
        }
    }
}

/// The base query: the list projection over scenarios, joined optionally
/// to publishers so that scenarios without one still appear.
pub open spec fn base_query() -> Seq<char> {
    "SELECT s.id, s.title, s.type as kind, s.temperature_target, s.description, p.name as publisher, s.published_date, s.target_year FROM pbtar.scenarios s LEFT JOIN pbtar.publishers p ON s.publisher_id = p.id WHERE 1=1"@
}

/// The fixed ordering suffix: newest publications first.
pub open spec fn order_suffix() -> Seq<char> {
    " ORDER BY s.published_date DESC"@
}

/// The whole composed query text for a filter set.
pub open spec fn composed_query(f: ScenarioFiltersModel) -> Seq<char> {
    base_query() + clauses_upto(f, 8) + order_suffix()
}

/// The values to bind to the composed query, in placeholder order.
pub open spec fn composed_params(f: ScenarioFiltersModel) -> Seq<QueryParamModel> {
    params_upto(f, 8)
}

/// The single digit of a clause position as text.
fn digit_str(n: usize) -> (r: &'static str)
    requires
        1 <= n <= 9,
    ensures
        r@ == seq![digit_char(n as int)],
{
    let r: &'static str = if n == 1 {
        "1"
    } else if n == 2 {
        "2"
    } else if n == 3 {
        "3"
    } else if n == 4 {
        "4"
    } else if n == 5 {
        "5"
    } else if n == 6 {
        "6"
    } else if n == 7 {
        "7"
    } else if n == 8 {
        "8"
    } else {
        "9"
    };
    proof {
        reveal_strlit("1");
        reveal_strlit("2");
        reveal_strlit("3");
        reveal_strlit("4");
        reveal_strlit("5");
        reveal_strlit("6");
        reveal_strlit("7");
        reveal_strlit("8");
        reveal_strlit("9");
        assert(r@ =~= seq![digit_char(n as int)]);
    }
    r
}

/// A field that is absent contributes nothing: no clause, no value.
pub proof fn lemma_skip_absent(f: ScenarioFiltersModel, i: int)
    requires
        0 <= i < 8,
        !field_present(f, i),
    ensures
        clauses_upto(f, i + 1) == clauses_upto(f, i),
        params_upto(f, i + 1) == params_upto(f, i),
        count_present_upto(f, i + 1) == count_present_upto(f, i),
{
    assert(clauses_upto(f, i + 1) =~= clauses_upto(f, i));
    assert(params_upto(f, i + 1) =~= params_upto(f, i));
}

/// Appends clause `i` and its bound value; `count` carries how many clauses
/// stand in the text already.
fn add_clause(
    sql: &mut String,
    params: &mut Vec<QueryParam>,
    count: &mut usize,
    prefix: &'static str,
    suffix: &'static str,
    value: QueryParam,
    Ghost(f): Ghost<ScenarioFiltersModel>,
    Ghost(i): Ghost<int>,
)
    requires
        0 <= i < 8,
        field_present(f, i),
        prefix@ == field_prefix(i),
        suffix@ == field_suffix(i),
        value@ == field_param(f, i),
        *old(count) == count_present_upto(f, i),
        old(sql)@ == base_query() + clauses_upto(f, i),
        param_models(old(params)@) == params_upto(f, i),
    ensures
        *final(count) == count_present_upto(f, i + 1),
        final(sql)@ == base_query() + clauses_upto(f, i + 1),
        param_models(final(params)@) == params_upto(f, i + 1),
{
    proof {
        lemma_count_present_upto_bound(f, i);
    }
    let n = *count + 1;
    sql.append(prefix);
    sql.append("$");
    sql.append(digit_str(n));
    sql.append(suffix);
    params.push(value);
    *count = n;
    proof {
        reveal_strlit("$");
        assert(sql@ =~= base_query() + clauses_upto(f, i + 1));
        assert(param_models(params@) =~= params_upto(f, i + 1));
    }
}

/// Composes the list query for a filter set: the full query text, and the
/// values to bind to its placeholders, in placeholder order.
///
/// The text is exactly the base query, one `AND` clause per present filter
/// field in fixed field order, and the ordering suffix; the values are the
/// present fields' values in the same order. Values are never written into
/// the text.
pub fn compose(filters: &ScenarioFilters) -> (r: (String, Vec<QueryParam>))
    ensures
        r.0@ == composed_query(filters@),
        param_models(r.1@) == composed_params(filters@),
{
    let ghost f = filters@;
    let mut sql = String::from_str(
        "SELECT s.id, s.title, s.type as kind, s.temperature_target, s.description, p.name as publisher, s.published_date, s.target_year FROM pbtar.scenarios s LEFT JOIN pbtar.publishers p ON s.publisher_id = p.id WHERE 1=1",
    );
    let mut params: Vec<QueryParam> = Vec::new();
    let mut count: usize = 0;
    proof {
        assert(sql@ =~= base_query() + clauses_upto(f, 0));
        assert(param_models(params@) =~= params_upto(f, 0));
    }
    if let Option::Some(v) = filters.publisher_id {
        add_clause(
            &mut sql,
            &mut params,
            &mut count,
            " AND s.publisher_id = ",
            "",
            QueryParam::IntValue(v),
            Ghost(f),
            Ghost(0),
        );
    } else {
        proof {
            lemma_skip_absent(f, 0);
        }
    }
    if let Option::Some(v) = filters.region_id {
        add_clause(
            &mut sql,
            &mut params,
            &mut count,
            " AND s.id IN (SELECT scenario_id FROM pbtar.scenario_regions WHERE region_id = ",
            ")",
            QueryParam::IntValue(v),
            Ghost(f),
            Ghost(1),
        );
    } else {
        proof {
            lemma_skip_absent(f, 1);
        }
    }
    if let Option::Some(v) = filters.stakeholder_id {
        add_clause(
            &mut sql,
            &mut params,
            &mut count,
            " AND s.id IN (SELECT scenario_id FROM pbtar.scenario_stakeholders WHERE stakeholder_id = ",
            ")",
            QueryParam::IntValue(v),
            Ghost(f),
            Ghost(2),
        );
    } else {
        proof {
            lemma_skip_absent(f, 2);
        }
    }
    if let Option::Some(v) = filters.sector_id {
        add_clause(
            &mut sql,
            &mut params,
            &mut count,
            " AND s.id IN (SELECT scenario_id FROM pbtar.scenario_sectors WHERE sector_id = ",
            ")",
            QueryParam::IntValue(v),
            Ghost(f),
            Ghost(3),
        );
    } else {
        proof {
            lemma_skip_absent(f, 3);
        }
    }
    if let Option::Some(v) = &filters.kind {
        add_clause(
            &mut sql,
            &mut params,
            &mut count,
            " AND s.type = ",
            "",
            QueryParam::TextValue(v.clone()),
            Ghost(f),
            Ghost(4),
        );
    } else {
        proof {
            lemma_skip_absent(f, 4);
        }
    }
    if let Option::Some(v) = &filters.temperature_target {
        add_clause(
            &mut sql,
            &mut params,
            &mut count,
            " AND s.temperature_target = ",
            "",
            QueryParam::TextValue(v.clone()),
            Ghost(f),
            Ghost(5),
        );
    } else {
        proof {
            lemma_skip_absent(f, 5);
        }
    }
    if let Option::Some(v) = filters.year_from {
        add_clause(
            &mut sql,
            &mut params,
            &mut count,
            " AND s.target_year >= ",
            "",
            QueryParam::IntValue(v),
            Ghost(f),
            Ghost(6),
        );
    } else {
        proof {
            lemma_skip_absent(f, 6);
        }
    }
    if let Option::Some(v) = filters.year_to {
        add_clause(
            &mut sql,
            &mut params,
            &mut count,
            " AND s.target_year <= ",
            "",
            QueryParam::IntValue(v),
            Ghost(f),
            Ghost(7),
        );
    } else {
        proof {
            lemma_skip_absent(f, 7);
        }
    }
    sql.append(" ORDER BY s.published_date DESC");
    proof {
        assert(sql@ =~= composed_query(f));
    }
    (sql, params)
}


proof fn lemma_clause_list_upto(f: ScenarioFiltersModel, i: int)
    requires
        0 <= i,
    ensures
        clause_list_upto(f, i).flatten() == clauses_upto(f, i),
        clause_list_upto(f, i).len() == count_present_upto(f, i),
        params_upto(f, i).len() == count_present_upto(f, i),
    decreases i,
{
    broadcast use vstd::prelude::Seq::lemma_flatten_push;

    if i <= 0 {
        assert(clause_list_upto(f, i).flatten() =~= clauses_upto(f, i));
        assert(params_upto(f, i) =~= Seq::<QueryParamModel>::empty());
    } else {
        lemma_clause_list_upto(f, i - 1);
        if field_present(f, i - 1) {
            assert(clause_list_upto(f, i) =~= clause_list_upto(f, i - 1).push(
                clause_text(f, i - 1),
            ));
            assert(clause_list_upto(f, i).flatten() =~= clauses_upto(f, i));
            assert(params_upto(f, i) =~= params_upto(f, i - 1).push(field_param(f, i - 1)));
        } else {
            assert(clause_list_upto(f, i) =~= clause_list_upto(f, i - 1));
            assert(clauses_upto(f, i) =~= clauses_upto(f, i - 1));
            assert(params_upto(f, i) =~= params_upto(f, i - 1));
        }
    }
}

/// LAW: exactly one `AND` clause and one bound value arise per present
/// filter field, none for an absent one, and the clauses stand in fixed
/// field order whatever the combination: the composed text is the base
/// query, then the clause texts of just the present fields in field order,
/// then the ordering suffix.
pub proof fn lemma_one_clause_per_present_field(f: ScenarioFiltersModel)
    ensures
        composed_query(f) == base_query() + clause_list(f).flatten() + order_suffix(),
        clause_list(f).len() == count_present(f),
        composed_params(f).len() == count_present(f),
{
    lemma_clause_list_upto(f, 8);
}

/// LAW: the composed query text depends only on which filter fields are
/// present, never on their values; a value can reach the store only through
/// the separately bound parameter list.
pub proof fn lemma_query_text_value_independent(f1: ScenarioFiltersModel, f2: ScenarioFiltersModel)
    requires
        forall|i: int| 0 <= i < 8 ==> field_present(f1, i) == field_present(f2, i),
    ensures
        composed_query(f1) == composed_query(f2),
{
    lemma_clauses_upto_value_independent(f1, f2, 8);
}

proof fn lemma_clauses_upto_value_independent(
    f1: ScenarioFiltersModel,
    f2: ScenarioFiltersModel,
    i: int,
)
    requires
        0 <= i <= 8,
        forall|j: int| 0 <= j < 8 ==> field_present(f1, j) == field_present(f2, j),
    ensures
        clauses_upto(f1, i) == clauses_upto(f2, i),
        count_present_upto(f1, i) == count_present_upto(f2, i),
    decreases i,
{
    if i <= 0 {
        assert(clauses_upto(f1, i) =~= clauses_upto(f2, i));
    } else {
        lemma_clauses_upto_value_independent(f1, f2, i - 1);
        assert(clauses_upto(f1, i) =~= clauses_upto(f2, i));
    }
}

} // verus!
