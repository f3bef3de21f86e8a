//! Building the SQL statements whose shape depends on a request: `UPDATE ... SET`
//! lists and `WHERE` filters, each with the parameters to bind in order.
use vstd::prelude::*;

use crate::text::{join_strings, join_with, texts};

verus! {

/// A column assignment: the column, and the value bound to it (`None` sets it to NULL).
pub type Assignment = (String, Option<String>);

/// The abstract content of assignments.
pub open spec fn assignments_view(v: Seq<Assignment>) -> Seq<(Seq<char>, Option<Seq<char>>)> {
    v.map_values(|a: Assignment| (a.0@, opt_view(a.1)))
}

/// The view of an optional string.
pub open spec fn opt_view(o: Option<String>) -> Option<Seq<char>> {
    match o {
        Some(s) => Some(s@),
        None => None,
    }
}

/// The SQL text of one assignment: `column = ?` when a value is bound, else `column = NULL`.
pub open spec fn assignment_text(a: (Seq<char>, Option<Seq<char>>)) -> Seq<char> {
    if a.1 is Some {
        a.0 + " = ?"@
    } else {
        a.0 + " = NULL"@
    }
}

/// The values bound by assignments, in order.
pub open spec fn bound_values(v: Seq<(Seq<char>, Option<Seq<char>>)>) -> Seq<Seq<char>>
    decreases v.len(),
{
    if v.len() == 0 {
        seq![]
    } else {
        bound_values(v.drop_last()) + match v.last().1 {
            Some(x) => seq![x],
            None => seq![],
        }
    }
}

/// `UPDATE table SET a1, a2, ... WHERE id = ?`
pub open spec fn update_text(table: Seq<char>, v: Seq<(Seq<char>, Option<Seq<char>>)>) -> Seq<
    char,
> {
    "UPDATE "@ + table + " SET "@ + join_with(v.map_values(|a: (Seq<char>, Option<Seq<char>>)| assignment_text(a)), ", "@) + " WHERE id = ?"@
}

/// The statement that applies `assignments` to the row of `table` with a given id, and
/// the values to bind before that id.
pub fn update_statement(table: &str, assignments: &Vec<Assignment>) -> (r: (String, Vec<String>))
    ensures
        r.0@ == update_text(table@, assignments_view(assignments@)),
        texts(r.1@) == bound_values(assignments_view(assignments@)),
{
    let mut parts: Vec<String> = Vec::new();
    let mut params: Vec<String> = Vec::new();
    let mut i: usize = 0;
    while i < assignments.len()
        invariant
            i <= assignments@.len(),
            texts(parts@) == assignments_view(assignments@.subrange(0, i as int)).map_values(
                |a: (Seq<char>, Option<Seq<char>>)| assignment_text(a),
            ),
            texts(params@) == bound_values(assignments_view(assignments@.subrange(0, i as int))),
        decreases assignments@.len() - i,
    {
        let a = &assignments[i];
        let mut part = a.0.clone();
        match &a.1 {
            Some(v) => {
                part.append(" = ?");
                params.push(v.clone());
            },
            None => {
                part.append(" = NULL");
            },
        }
        let ghost before = parts@;
        let ghost part_text = part@;
        parts.push(part);
        proof {
            let sub = assignments_view(assignments@.subrange(0, i + 1));
            assert(sub.drop_last() =~= assignments_view(assignments@.subrange(0, i as int)));
            assert(sub.last() == (a.0@, opt_view(a.1)));
            assert(part_text == assignment_text(sub.last()));
            assert(texts(parts@) =~= texts(before).push(part_text));
            assert(texts(parts@) =~= sub.map_values(
                |a: (Seq<char>, Option<Seq<char>>)| assignment_text(a),
            ));
        }
        i = i + 1;
    }
    assert(assignments@.subrange(0, i as int) =~= assignments@);
    let joined = join_strings(&parts, ", ");
    let mut sql = "UPDATE ".to_owned();
    sql.append(table);
    sql.append(" SET ");
    sql.append(joined.as_str());
    sql.append(" WHERE id = ?");
    (sql, params)
}

/// A filter: the SQL fragment that restricts a query, and the value it binds.
pub type Condition = (String, String);

/// The abstract content of filters.
pub open spec fn conditions_view(v: Seq<Condition>) -> Seq<(Seq<char>, Seq<char>)> {
    v.map_values(|c: Condition| (c.0@, c.1@))
}

/// The fragments of the filters written one after another.
pub open spec fn fragments(v: Seq<(Seq<char>, Seq<char>)>) -> Seq<char>
    decreases v.len(),
{
    if v.len() == 0 {
        seq![]
    } else {
        fragments(v.drop_last()) + v.last().0
    }
}

/// Appends the fragments of `conditions` to `query` and collects the values they bind.
pub fn apply_conditions(query: &mut String, params: &mut Vec<String>, conditions: &Vec<Condition>)
    ensures
        final(query)@ == old(query)@ + fragments(conditions_view(conditions@)),
        texts(final(params)@) == texts(old(params)@) + conditions_view(conditions@).map_values(
            |c: (Seq<char>, Seq<char>)| c.1,
        ),
{
    let ghost q0 = query@;
    let ghost p0 = texts(params@);
    let mut i: usize = 0;
    while i < conditions.len()
        invariant
            i <= conditions@.len(),
            query@ == q0 + fragments(conditions_view(conditions@.subrange(0, i as int))),
            texts(params@) == p0 + conditions_view(conditions@.subrange(0, i as int)).map_values(
                |c: (Seq<char>, Seq<char>)| c.1,
            ),
        decreases conditions@.len() - i,
    {
        let ghost before = params@;
        query.append(conditions[i].0.as_str());
        params.push(conditions[i].1.clone());
        proof {
            assert(texts(params@) =~= texts(before).push(conditions@[i as int].1@));
            let sub = conditions_view(conditions@.subrange(0, i + 1));
            assert(sub.drop_last() =~= conditions_view(conditions@.subrange(0, i as int)));
            assert(query@ =~= q0 + fragments(sub));
            assert(texts(params@) =~= p0 + sub.map_values(|c: (Seq<char>, Seq<char>)| c.1));
        }
        i = i + 1;
    }
    assert(conditions@.subrange(0, i as int) =~= conditions@);
}

} // verus!
