//! Declarative predicate composition for the candidate fetch.
//!
//! A preference request turns into an ordered list of independent, named
//! filter clauses. Each clause carries its own bound value, so any subset
//! of optional clauses composes without parameter-position drift: adding
//! or removing one clause never renumbers another clause's binding. The
//! hall-id equality clause is always present and always first, and the
//! fetch is hard-bounded to 200 rows whatever filters are active.

use vstd::prelude::*;
use vstd::seq_lib::*;
use vstd::string::*;

use crate::schema::PreferenceRequest;

verus! {

/// The Unicode `White_Space` set, exactly as `char::is_whitespace` defines
/// it.
pub open spec fn is_space_char(c: char) -> bool {
    let u = c as u32;
    ||| u == 0x9
    ||| u == 0xA
    ||| u == 0xB
    ||| u == 0xC
    ||| u == 0xD
    ||| u == 0x20
    ||| u == 0x85
    ||| u == 0xA0
    ||| u == 0x1680
    ||| (0x2000 <= u && u <= 0x200A)
    ||| u == 0x2028
    ||| u == 0x2029
    ||| u == 0x202F
    ||| u == 0x205F
    ||| u == 0x3000
}

/// A text is blank when every character is whitespace — the emptiness test
/// applied after trimming.
pub open spec fn spec_is_blank(s: Seq<char>) -> bool {
    forall|i: int| 0 <= i < s.len() ==> is_space_char(#[trigger] s[i])
}

/// Whether one character is whitespace.
pub fn char_is_space(c: char) -> (r: bool)
    ensures
        r == is_space_char(c),
{
    let u = c as u32;
    u == 0x9 || u == 0xA || u == 0xB || u == 0xC || u == 0xD || u == 0x20 || u == 0x85 || u == 0xA0
        || u == 0x1680 || (0x2000 <= u && u <= 0x200A) || u == 0x2028 || u == 0x2029 || u == 0x202F
        || u == 0x205F || u == 0x3000
}

/// Whether the text is empty or all whitespace.
pub fn is_blank(s: &str) -> (r: bool)
    ensures
        r == spec_is_blank(s@),
{
    let n = s.unicode_len();
    let mut i: usize = 0;
    while i < n
        invariant
            n == s@.len(),
            0 <= i <= n,
            forall|k: int| 0 <= k < i ==> is_space_char(#[trigger] s@[k]),
        decreases n - i,
    {
        if !char_is_space(s.get_char(i)) {
            return false;
        }
        i += 1;
    }
    true
}

/// The substring pattern a text query is matched with: the query wrapped
/// in wildcards.
pub fn like_pattern(q: &str) -> (r: String)
    ensures
        r@ == "%"@ + q@ + "%"@,
{
    let mut p = String::from_str("%");
    p.append(q);
    p.append("%");
    p
}

/// One named filter clause, carrying its own bound value.
#[derive(Clone, Debug, PartialEq)]
pub enum Clause {
    /// `hall_id = ?` — always present, always first.
    HallId(i64),
    /// `vegan = true`.
    VeganOnly,
    /// `vegetarian = true`.
    VegetarianOnly,
    /// `calories IS NULL OR calories <= ?`.
    MaxCalories(i32),
    /// `name` matches the wrapped substring pattern, case-insensitively.
    NameLike(String),
}

/// The mathematical shape of a clause: bound texts as character sequences,
/// bound numbers as integers.
pub enum SpecClause {
    HallId(int),
    Vegan,
    Vegetarian,
    MaxCalories(int),
    NameLike(Seq<char>),
}

impl View for Clause {
    type V = SpecClause;

    open spec fn view(&self) -> SpecClause {
        match self {
            Clause::HallId(h) => SpecClause::HallId(*h as int),
            Clause::VeganOnly => SpecClause::Vegan,
            Clause::VegetarianOnly => SpecClause::Vegetarian,
            Clause::MaxCalories(m) => SpecClause::MaxCalories(*m as int),
            Clause::NameLike(p) => SpecClause::NameLike(p@),
        }
    }
}

/// The clause list as its mathematical shape.
pub open spec fn clauses_view(s: Seq<Clause>) -> Seq<SpecClause> {
    s.map_values(|c: Clause| c@)
}

/// The clauses a normalized request composes, in order: the mandatory
/// hall-id clause, then one clause per active optional filter. A blank
/// text query activates no name clause.
pub open spec fn spec_clauses(req: PreferenceRequest) -> Seq<SpecClause> {
    let base = seq![SpecClause::HallId(req.hall_id as int)];
    let with_vegan = if req.vegan_only {
        base.push(SpecClause::Vegan)
    } else {
        base
    };
    let with_vegetarian = if req.vegetarian_only {
        with_vegan.push(SpecClause::Vegetarian)
    } else {
        with_vegan
    };
    let with_calories = match req.max_calories {
        Some(m) => with_vegetarian.push(SpecClause::MaxCalories(m as int)),
        None => with_vegetarian,
    };
    if !spec_is_blank(req.text_query@) {
        with_calories.push(SpecClause::NameLike("%"@ + req.text_query@ + "%"@))
    } else {
        with_calories
    }
}

/// A composed predicate: the ordered clause list and the hard row bound
/// the candidate fetch must apply.
pub struct Predicate {
    pub clauses: Vec<Clause>,
    pub fetch_limit: usize,
}

impl Predicate {
    /// Few clauses, so every placeholder is a single digit.
    pub open spec fn wf(self) -> bool {
        1 <= self.clauses@.len() <= 8
    }
}

/// Compose the predicate of a normalized request: exactly the clauses of
/// `spec_clauses`, in order, and a fetch bound of 200 rows — never more,
/// whichever optional filters are combined.
pub fn build_predicate(req: &PreferenceRequest) -> (p: Predicate)
    ensures
        p.wf(),
        clauses_view(p.clauses@) == spec_clauses(*req),
        p.fetch_limit == 200,
        p.clauses@.len() >= 1,
        p.clauses@[0]@ == SpecClause::HallId(req.hall_id as int),
{
    let mut clauses: Vec<Clause> = Vec::new();
    clauses.push(Clause::HallId(req.hall_id));
    if req.vegan_only {
        clauses.push(Clause::VeganOnly);
    }
    if req.vegetarian_only {
        clauses.push(Clause::VegetarianOnly);
    }
    match req.max_calories {
        Some(m) => clauses.push(Clause::MaxCalories(m)),
        None => {},
    }
    if !is_blank(req.text_query.as_str()) {
        clauses.push(Clause::NameLike(like_pattern(req.text_query.as_str())));
    }
    proof {
        assert(clauses_view(clauses@) =~= spec_clauses(*req));
    }
    Predicate { clauses, fetch_limit: 200 }
}

/// A value bound into the query, owned by exactly one clause.
#[derive(Clone, Debug, PartialEq)]
pub enum BindValue {
    Int(i64),
    Text(String),
}

/// The mathematical shape of a bound value.
pub enum SpecBind {
    Int(int),
    Text(Seq<char>),
}

impl View for BindValue {
    type V = SpecBind;

    open spec fn view(&self) -> SpecBind {
        match self {
            BindValue::Int(v) => SpecBind::Int(*v as int),
            BindValue::Text(t) => SpecBind::Text(t@),
        }
    }
}

/// The binding list as its mathematical shape.
pub open spec fn binds_view(s: Seq<BindValue>) -> Seq<SpecBind> {
    s.map_values(|b: BindValue| b@)
}

/// The values a single clause binds: the diet flags bind nothing (their
/// clause text is a literal), every other clause binds exactly its own
/// value.
pub open spec fn clause_binds(c: SpecClause) -> Seq<SpecBind> {
    match c {
        SpecClause::HallId(h) => seq![SpecBind::Int(h)],
        SpecClause::Vegan => Seq::<SpecBind>::empty(),
        SpecClause::Vegetarian => Seq::<SpecBind>::empty(),
        SpecClause::MaxCalories(m) => seq![SpecBind::Int(m)],
        SpecClause::NameLike(p) => seq![SpecBind::Text(p)],
    }
}

/// The positional bindings of a clause list: each clause's own values, in
/// clause order.
pub open spec fn spec_bindings(cs: Seq<SpecClause>) -> Seq<SpecBind>
    decreases cs.len(),
{
    if cs.len() == 0 {
        Seq::<SpecBind>::empty()
    } else {
        spec_bindings(cs.drop_last()) + clause_binds(cs.last())
    }
}

/// No parameter-position drift: the bindings of composed clause lists are
/// the concatenation of each part's own bindings, so adding or removing a
/// clause never changes which value another clause binds.
pub proof fn lemma_bindings_compose(cs1: Seq<SpecClause>, cs2: Seq<SpecClause>)
    ensures
        spec_bindings(cs1 + cs2) == spec_bindings(cs1) + spec_bindings(cs2),
    decreases cs2.len(),
{
    if cs2.len() == 0 {
        assert(cs1 + cs2 =~= cs1);
        assert(spec_bindings(cs1) + Seq::<SpecBind>::empty() =~= spec_bindings(cs1));
    } else {
        lemma_bindings_compose(cs1, cs2.drop_last());
        assert((cs1 + cs2).drop_last() =~= cs1 + cs2.drop_last());
        assert((cs1 + cs2).last() == cs2.last());
        assert(spec_bindings(cs1) + spec_bindings(cs2.drop_last()) + clause_binds(cs2.last())
            =~= spec_bindings(cs1) + (spec_bindings(cs2.drop_last()) + clause_binds(cs2.last())));
    }
}

/// The placeholder a clause's bound value is referred to by: `$1` … `$9`.
pub open spec fn spec_placeholder(n: int) -> Seq<char> {
    if n == 1 {
        "$1"@
    } else if n == 2 {
        "$2"@
    } else if n == 3 {
        "$3"@
    } else if n == 4 {
        "$4"@
    } else if n == 5 {
        "$5"@
    } else if n == 6 {
        "$6"@
    } else if n == 7 {
        "$7"@
    } else if n == 8 {
        "$8"@
    } else {
        "$9"@
    }
}

/// How many values a clause binds.
pub open spec fn clause_bind_count(c: SpecClause) -> int {
    match c {
        SpecClause::Vegan => 0,
        SpecClause::Vegetarian => 0,
        _ => 1,
    }
}

/// How many values a clause list binds in all.
pub open spec fn spec_nbinds(cs: Seq<SpecClause>) -> int
    decreases cs.len(),
{
    if cs.len() == 0 {
        0
    } else {
        spec_nbinds(cs.drop_last()) + clause_bind_count(cs.last())
    }
}

/// A clause never binds more than one value, so a list binds at most one
/// value per clause.
pub proof fn lemma_nbinds_le(cs: Seq<SpecClause>)
    ensures
        0 <= spec_nbinds(cs) <= cs.len(),
    decreases cs.len(),
{
    if cs.len() > 0 {
        lemma_nbinds_le(cs.drop_last());
    }
}

/// The SQL text of one clause, its placeholder assigned automatically.
pub open spec fn spec_clause_sql(c: SpecClause, n: int) -> Seq<char> {
    match c {
        SpecClause::HallId(_) => "hall_id = "@ + spec_placeholder(n),
        SpecClause::Vegan => "vegan = true"@,
        SpecClause::Vegetarian => "vegetarian = true"@,
        SpecClause::MaxCalories(_) => "(calories IS NULL OR calories <= "@ + spec_placeholder(n)
            + ")"@,
        SpecClause::NameLike(_) => "name ILIKE "@ + spec_placeholder(n),
    }
}

/// The conjunction of the clause texts, placeholders numbered in binding
/// order: each clause's placeholder index is one past the count of values
/// bound by the clauses before it.
pub open spec fn spec_where_sql(cs: Seq<SpecClause>) -> Seq<char>
    decreases cs.len(),
{
    if cs.len() == 0 {
        Seq::<char>::empty()
    } else if cs.len() == 1 {
        spec_clause_sql(cs[0], 1)
    } else {
        spec_where_sql(cs.drop_last()) + " AND "@ + spec_clause_sql(
            cs.last(),
            spec_nbinds(cs.drop_last()) + 1,
        )
    }
}

/// The full candidate-fetch statement of a clause list, with the hard
/// 200-row bound.
pub open spec fn spec_sql(cs: Seq<SpecClause>) -> Seq<char> {
    "SELECT id,hall_id,name,calories,vegan,vegetarian,popularity_score FROM menu_items WHERE "@
        + spec_where_sql(cs) + " LIMIT 200"@
}

/// Append `$n` for a single-digit placeholder index.
fn append_placeholder(sql: &mut String, n: usize)
    requires
        1 <= n <= 9,
    ensures
        final(sql)@ == old(sql)@ + spec_placeholder(n as int),
{
    match n {
        1 => sql.append("$1"),
        2 => sql.append("$2"),
        3 => sql.append("$3"),
        4 => sql.append("$4"),
        5 => sql.append("$5"),
        6 => sql.append("$6"),
        7 => sql.append("$7"),
        8 => sql.append("$8"),
        _ => sql.append("$9"),
    }
}

impl Predicate {
    /// Render the composed predicate to one SQL statement and its
    /// positional bindings. Placeholders are assigned automatically in
    /// binding order — no string surgery, no renumbering when a clause
    /// subset changes.
    pub fn to_sql(&self) -> (r: (String, Vec<BindValue>))
        requires
            self.wf(),
        ensures
            r.0@ == spec_sql(clauses_view(self.clauses@)),
            binds_view(r.1@) == spec_bindings(clauses_view(self.clauses@)),
    {
        let ghost cv = clauses_view(self.clauses@);
        let mut sql = String::from_str(
            "SELECT id,hall_id,name,calories,vegan,vegetarian,popularity_score FROM menu_items WHERE ",
        );
        let ghost head = sql@;
        let mut binds: Vec<BindValue> = Vec::new();
        let n = self.clauses.len();
        let mut i: usize = 0;
        proof {
            assert(cv.take(0) =~= Seq::<SpecClause>::empty());
            assert(sql@ =~= head + spec_where_sql(cv.take(0)));
            assert(binds_view(binds@) =~= spec_bindings(cv.take(0)));
        }
        while i < n
            invariant
                0 <= i <= n,
                1 <= n <= 8,
                n == self.clauses@.len(),
                cv == clauses_view(self.clauses@),
                sql@ == head + spec_where_sql(cv.take(i as int)),
                binds_view(binds@) == spec_bindings(cv.take(i as int)),
                binds@.len() == spec_nbinds(cv.take(i as int)),
            decreases n - i,
        {
            let ghost prefix = cv.take(i as int);
            let ghost prev_sql = sql@;
            let ghost prev_binds = binds_view(binds@);
            proof {
                lemma_nbinds_le(prefix);
            }
            if i > 0 {
                sql.append(" AND ");
            }
            let ghost joined = sql@;
            let n_ph = binds.len() + 1;
            match &self.clauses[i] {
                Clause::HallId(h) => {
                    sql.append("hall_id = ");
                    append_placeholder(&mut sql, n_ph);
                    binds.push(BindValue::Int(*h));
                    proof {
                        assert(sql@ =~= joined + spec_clause_sql(cv[i as int], n_ph as int));
                    }
                },
                Clause::VeganOnly => {
                    sql.append("vegan = true");
                },
                Clause::VegetarianOnly => {
                    sql.append("vegetarian = true");
                },
                Clause::MaxCalories(m) => {
                    sql.append("(calories IS NULL OR calories <= ");
                    append_placeholder(&mut sql, n_ph);
                    sql.append(")");
                    binds.push(BindValue::Int(*m as i64));
                    proof {
                        assert(sql@ =~= joined + spec_clause_sql(cv[i as int], n_ph as int));
                    }
                },
                Clause::NameLike(p) => {
                    sql.append("name ILIKE ");
                    append_placeholder(&mut sql, n_ph);
                    binds.push(BindValue::Text(p.clone()));
                    proof {
                        assert(sql@ =~= joined + spec_clause_sql(cv[i as int], n_ph as int));
                    }
                },
            }
            proof {
                let next = cv.take(i as int + 1);
                assert(next.drop_last() =~= prefix);
                assert(next.last() == cv[i as int]);
                if i == 0 {
                    assert(spec_where_sql(next) == spec_clause_sql(cv[0], 1));
                    assert(sql@ =~= head + spec_where_sql(next));
                } else {
                    assert(spec_where_sql(next) == spec_where_sql(prefix) + " AND "@
                        + spec_clause_sql(next.last(), spec_nbinds(prefix) + 1));
                    assert(sql@ =~= head + spec_where_sql(next));
                }
                assert(binds_view(binds@) =~= prev_binds + clause_binds(cv[i as int]));
                assert(spec_bindings(next) == spec_bindings(prefix) + clause_binds(next.last()));
            }
            i += 1;
        }
        sql.append(" LIMIT 200");
        proof {
            assert(cv.take(n as int) =~= cv);
            assert(sql@ =~= spec_sql(cv));
        }
        (sql, binds)
    }

    /// The positional bindings of this predicate, in clause order.
    pub fn bindings(&self) -> (r: Vec<BindValue>)
        ensures
            binds_view(r@) == spec_bindings(clauses_view(self.clauses@)),
    {
        let mut binds: Vec<BindValue> = Vec::new();
        let n = self.clauses.len();
        let mut i: usize = 0;
        proof {
            assert(clauses_view(self.clauses@.take(0)) =~= Seq::<SpecClause>::empty());
            assert(binds_view(binds@) =~= Seq::<SpecBind>::empty());
        }
        while i < n
            invariant
                0 <= i <= n,
                n == self.clauses@.len(),
                binds_view(binds@) == spec_bindings(clauses_view(self.clauses@.take(i as int))),
            decreases n - i,
        {
            let ghost prefix = clauses_view(self.clauses@.take(i as int));
            let ghost prev = binds_view(binds@);
            match &self.clauses[i] {
                Clause::HallId(h) => binds.push(BindValue::Int(*h)),
                Clause::VeganOnly => {},
                Clause::VegetarianOnly => {},
                Clause::MaxCalories(m) => binds.push(BindValue::Int(*m as i64)),
                Clause::NameLike(p) => binds.push(BindValue::Text(p.clone())),
            }
            proof {
                let next = clauses_view(self.clauses@.take(i as int + 1));
                assert(next.drop_last() =~= prefix);
                assert(next.last() == self.clauses@[i as int]@);
                assert(binds_view(binds@) =~= prev + clause_binds(self.clauses@[i as int]@));
            }
            i += 1;
        }
        proof {
            assert(self.clauses@.take(n as int) =~= self.clauses@);
        }
        binds
    }
}

} // verus!
