//! The small expression language of the script slots: `${...}` interpolation
//! in strings, the conditions of `if`, and the literals of expressions.
use vstd::prelude::*;
use crate::num::{parse_i64, parse_i64_exec};
use crate::text::{
    concat, concat3, contains, contains_exec, split_once, ends_with, ends_with_exec, find_from, find_from_exec, chars_of, owned,
    split, split_exec, starts_with, starts_with_exec, string_of_range, trim, trim_exec, views,
};

verus! {

/// Whether text is wrapped in double or single quotes (a lone quote counts).
pub open spec fn quoted(t: Seq<char>) -> bool {
    (starts_with(t, "\""@) && ends_with(t, "\""@)) || (starts_with(t, "'"@) && ends_with(t, "'"@))
}

/// Whether text is wrapped in quotes.
pub fn quoted_exec(t: &str) -> (b: bool)
    ensures
        b == quoted(t@),
{
    (starts_with_exec(t, "\"") && ends_with_exec(t, "\"")) || (starts_with_exec(t, "'") && ends_with_exec(t, "'"))
}

/// A condition trimmed and, when quoted, unquoted and trimmed again; `None`
/// for a lone quote, which cannot be unquoted.
pub open spec fn strip_condition(e: Seq<char>) -> Option<Seq<char>> {
    let t = trim(e);
    if quoted(t) {
        if t.len() < 2 {
            None
        } else {
            Some(trim(t.subrange(1, t.len() - 1)))
        }
    } else {
        Some(t)
    }
}

/// A condition trimmed and unquoted.
fn strip_condition_exec(e: &str) -> (r: Option<String>)
    ensures
        match strip_condition(e@) {
            Some(t) => r matches Some(s) && s@ == t,
            None => r is None,
        },
{
    let t = trim_exec(e);
    if quoted_exec(t.as_str()) {
        let cs = chars_of(t.as_str());
        if cs.len() < 2 {
            None
        } else {
            let inner = string_of_range(&cs, 1, cs.len() - 1);
            Some(trim_exec(inner.as_str()))
        }
    } else {
        Some(t)
    }
}

/// A comparison operator of a condition.
pub enum CompareOp {
    Eq,
    Ne,
    Ge,
    Le,
    Gt,
    Lt,
}

/// The simplest condition: false, a comparison of two expressions, or the
/// truth of one expression.
pub enum Leaf {
    Never,
    Compare { op: CompareOp, left: String, right: String },
    Truthy(String),
}

/// Conditions that must all hold, or a single one.
pub enum Conjunction {
    Single(Leaf),
    All(Vec<Leaf>),
}

/// Conjunctions of which one must hold, or a single one.
pub enum Condition {
    Single(Conjunction),
    Any(Vec<Conjunction>),
}

/// What a leaf is.
pub enum LeafView {
    Never,
    Compare(int, Seq<char>, Seq<char>),
    Truthy(Seq<char>),
}

/// The operators in the order they are tried: `==`, `!=`, `>=`, `<=`, `>`, `<`.
pub open spec fn op_text(k: int) -> Seq<char> {
    if k == 0 {
        "=="@
    } else if k == 1 {
        "!="@
    } else if k == 2 {
        ">="@
    } else if k == 3 {
        "<="@
    } else if k == 4 {
        ">"@
    } else {
        "<"@
    }
}

/// The first operator from `k` on that the text contains.
pub open spec fn first_op(t: Seq<char>, k: int) -> Option<int>
    decreases 6 - k,
{
    if k < 0 || k >= 6 {
        None
    } else if contains(t, op_text(k)) {
        Some(k)
    } else {
        first_op(t, k + 1)
    }
}

/// What an unquoted, non-empty condition without `||` or `&&` is: a
/// comparison at the first operator it contains (each side trimmed), or the
/// truth of the whole.
pub open spec fn leaf_of(t: Seq<char>) -> LeafView {
    match first_op(t, 0) {
        Some(k) => {
            let i = find_from(t, op_text(k), 0).unwrap();
            LeafView::Compare(k, trim(t.subrange(0, i)), trim(t.subrange(i + op_text(k).len(), t.len() as int)))
        },
        None => LeafView::Truthy(t),
    }
}

/// What a part of a condition without `||` or `&&` is, after stripping.
pub open spec fn leaf_parse(p: Seq<char>) -> Option<LeafView> {
    match strip_condition(p) {
        None => None,
        Some(t) => if t.len() == 0 {
            Some(LeafView::Never)
        } else {
            Some(leaf_of(t))
        },
    }
}

/// What each of the parts is, or `None` when one cannot be stripped.
pub open spec fn leaves_parse(ps: Seq<Seq<char>>) -> Option<Seq<LeafView>>
    decreases ps.len(),
{
    if ps.len() == 0 {
        Some(Seq::empty())
    } else {
        match (leaves_parse(ps.drop_last()), leaf_parse(ps.last())) {
            (Some(a), Some(l)) => Some(a.push(l)),
            _ => None,
        }
    }
}

/// What a part of a condition without `||` is: the conjunction of its
/// `&&`-separated parts, or a single leaf.
pub open spec fn conj_parse(p: Seq<char>) -> Option<(bool, Seq<LeafView>)> {
    match strip_condition(p) {
        None => None,
        Some(t) => if t.len() == 0 {
            Some((false, seq![LeafView::Never]))
        } else if contains(t, "&&"@) {
            match leaves_parse(split(t, "&&"@)) {
                Some(ls) => Some((true, ls)),
                None => None,
            }
        } else {
            Some((false, seq![leaf_of(t)]))
        },
    }
}

/// What each of the parts is as a conjunction.
pub open spec fn conjs_parse(ps: Seq<Seq<char>>) -> Option<Seq<(bool, Seq<LeafView>)>>
    decreases ps.len(),
{
    if ps.len() == 0 {
        Some(Seq::empty())
    } else {
        match (conjs_parse(ps.drop_last()), conj_parse(ps.last())) {
            (Some(a), Some(c)) => Some(a.push(c)),
            _ => None,
        }
    }
}

/// What a condition is: the disjunction of its `||`-separated parts, or a
/// single conjunction; `None` where a part is a lone quote.
pub open spec fn condition_parse(e: Seq<char>) -> Option<(bool, Seq<(bool, Seq<LeafView>)>)> {
    match strip_condition(e) {
        None => None,
        Some(t) => if t.len() != 0 && contains(t, "||"@) {
            match conjs_parse(split(t, "||"@)) {
                Some(cs) => Some((true, cs)),
                None => None,
            }
        } else {
            match conj_parse(e) {
                Some(c) => Some((false, seq![c])),
                None => None,
            }
        },
    }
}

/// The number of an operator.
pub open spec fn op_num(op: CompareOp) -> int {
    match op {
        CompareOp::Eq => 0,
        CompareOp::Ne => 1,
        CompareOp::Ge => 2,
        CompareOp::Le => 3,
        CompareOp::Gt => 4,
        CompareOp::Lt => 5,
    }
}

/// The view of a leaf.
pub open spec fn leaf_view(l: Leaf) -> LeafView {
    match l {
        Leaf::Never => LeafView::Never,
        Leaf::Compare { op, left, right } => LeafView::Compare(op_num(op), left@, right@),
        Leaf::Truthy(t) => LeafView::Truthy(t@),
    }
}

/// The view of a conjunction: whether it is a list, and its leaves.
pub open spec fn conj_view(c: Conjunction) -> (bool, Seq<LeafView>) {
    match c {
        Conjunction::Single(l) => (false, seq![leaf_view(l)]),
        Conjunction::All(ls) => (true, ls@.map_values(|l: Leaf| leaf_view(l))),
    }
}

/// The view of a condition: whether it is a list, and its conjunctions.
pub open spec fn condition_view(c: Condition) -> (bool, Seq<(bool, Seq<LeafView>)>) {
    match c {
        Condition::Single(j) => (false, seq![conj_view(j)]),
        Condition::Any(js) => (true, js@.map_values(|j: Conjunction| conj_view(j))),
    }
}

/// The operator numbered `k`, and its text.
fn op_at(k: usize) -> (r: (CompareOp, &'static str))
    requires
        k < 6,
    ensures
        op_num(r.0) == k,
        r.1@ == op_text(k as int),
{
    if k == 0 {
        (CompareOp::Eq, "==")
    } else if k == 1 {
        (CompareOp::Ne, "!=")
    } else if k == 2 {
        (CompareOp::Ge, ">=")
    } else if k == 3 {
        (CompareOp::Le, "<=")
    } else if k == 4 {
        (CompareOp::Gt, ">")
    } else {
        (CompareOp::Lt, "<")
    }
}

/// What an unquoted, non-empty condition without `||` or `&&` is.
fn leaf_of_exec(t: &str) -> (r: Leaf)
    ensures
        leaf_view(r) == leaf_of(t@),
{
    let mut k: usize = 0;
    while k < 6
        invariant
            k <= 6,
            first_op(t@, 0) == first_op(t@, k as int),
        decreases 6 - k,
    {
        let (op, text) = op_at(k);
        if contains_exec(t, text) {
            let cs = chars_of(t);
            let ps = chars_of(text);
            proof {
                crate::text::lemma_find_from_bounds(t@, text@, 0);
            }
            let i = find_from_exec(&cs, &ps, 0).unwrap();
            let left = string_of_range(&cs, 0, i);
            let right = string_of_range(&cs, i + ps.len(), cs.len());
            return Leaf::Compare { op, left: trim_exec(left.as_str()), right: trim_exec(right.as_str()) };
        }
        k += 1;
    }
    Leaf::Truthy(owned(t))
}

/// What a part without `||` or `&&` is, after stripping.
fn leaf_parse_exec(p: &str) -> (r: Option<Leaf>)
    ensures
        match leaf_parse(p@) {
            Some(l) => r matches Some(x) && leaf_view(x) == l,
            None => r is None,
        },
{
    match strip_condition_exec(p) {
        None => None,
        Some(t) => if t.as_str().is_empty() {
            Some(Leaf::Never)
        } else {
            Some(leaf_of_exec(t.as_str()))
        },
    }
}

/// What each part is.
fn leaves_parse_exec(ps: &Vec<String>) -> (r: Option<Vec<Leaf>>)
    ensures
        match leaves_parse(views(ps@)) {
            Some(ls) => r matches Some(x) && x@.map_values(|l: Leaf| leaf_view(l)) == ls,
            None => r is None,
        },
{
    let mut out: Vec<Leaf> = Vec::new();
    let mut i: usize = 0;
    while i < ps.len()
        invariant
            i <= ps.len(),
            leaves_parse(views(ps@).take(i as int)) == Some(out@.map_values(|l: Leaf| leaf_view(l))),
        decreases ps.len() - i,
    {
        assert(views(ps@).take(i + 1).drop_last() =~= views(ps@).take(i as int));
        assert(views(ps@).take(i + 1).last() == ps@[i as int]@);
        match leaf_parse_exec(ps[i].as_str()) {
            Some(l) => {
                let ghost prev = out@.map_values(|l: Leaf| leaf_view(l));
                let ghost lv = leaf_view(l);
                out.push(l);
                assert(out@.map_values(|l: Leaf| leaf_view(l)) =~= prev.push(lv));
            },
            None => {
                proof {
                    lemma_leaves_none_extends(views(ps@), i as int + 1);
                }
                return None;
            },
        }
        i += 1;
    }
    assert(views(ps@).take(ps.len() as int) =~= views(ps@));
    Some(out)
}

/// Once a prefix holds a part that cannot be stripped, so does the whole.
proof fn lemma_leaves_none_extends(ps: Seq<Seq<char>>, i: int)
    requires
        0 <= i <= ps.len(),
        leaves_parse(ps.take(i)) is None,
    ensures
        leaves_parse(ps) is None,
    decreases ps.len() - i,
{
    if i < ps.len() {
        assert(ps.take(i + 1).drop_last() =~= ps.take(i));
        lemma_leaves_none_extends(ps, i + 1);
    } else {
        assert(ps.take(i) =~= ps);
    }
}

/// Once a prefix holds a part that cannot be stripped, so does the whole.
proof fn lemma_conjs_none_extends(ps: Seq<Seq<char>>, i: int)
    requires
        0 <= i <= ps.len(),
        conjs_parse(ps.take(i)) is None,
    ensures
        conjs_parse(ps) is None,
    decreases ps.len() - i,
{
    if i < ps.len() {
        assert(ps.take(i + 1).drop_last() =~= ps.take(i));
        lemma_conjs_none_extends(ps, i + 1);
    } else {
        assert(ps.take(i) =~= ps);
    }
}

/// What a part without `||` is.
fn conj_parse_exec(p: &str) -> (r: Option<Conjunction>)
    ensures
        match conj_parse(p@) {
            Some(c) => r matches Some(x) && conj_view(x) == c,
            None => r is None,
        },
{
    match strip_condition_exec(p) {
        None => None,
        Some(t) => if t.as_str().is_empty() {
            Some(Conjunction::Single(Leaf::Never))
        } else if contains_exec(t.as_str(), "&&") {
            proof {
                reveal_strlit("&&");
            }
            let parts = split_exec(t.as_str(), "&&");
            match leaves_parse_exec(&parts) {
                Some(ls) => Some(Conjunction::All(ls)),
                None => None,
            }
        } else {
            Some(Conjunction::Single(leaf_of_exec(t.as_str())))
        },
    }
}

/// Parses the condition of an `if`: `||` binds loosest, then `&&`, then one
/// comparison (`==`, `!=`, `>=`, `<=`, `>`, `<`, the first the text contains)
/// or the truth of an expression; each part is trimmed and unquoted, and an
/// empty part is false. `None` where a part is a lone quote.
pub fn parse_condition(expr: &str) -> (r: Option<Condition>)
    ensures
        match condition_parse(expr@) {
            Some(c) => r matches Some(x) && condition_view(x) == c,
            None => r is None,
        },
{
    match strip_condition_exec(expr) {
        None => None,
        Some(t) => if !t.as_str().is_empty() && contains_exec(t.as_str(), "||") {
            proof {
                reveal_strlit("||");
            }
            let parts = split_exec(t.as_str(), "||");
            let mut out: Vec<Conjunction> = Vec::new();
            let mut i: usize = 0;
            while i < parts.len()
                invariant
                    i <= parts.len(),
                    conjs_parse(views(parts@).take(i as int)) == Some(out@.map_values(|j: Conjunction| conj_view(j))),
                    strip_condition(expr@) == Some(t@),
                    t@.len() != 0,
                    contains(t@, "||"@),
                    views(parts@) == split(t@, "||"@),
                decreases parts.len() - i,
            {
                assert(views(parts@).take(i + 1).drop_last() =~= views(parts@).take(i as int));
                assert(views(parts@).take(i + 1).last() == parts@[i as int]@);
                match conj_parse_exec(parts[i].as_str()) {
                    Some(c) => {
                        let ghost prev = out@.map_values(|j: Conjunction| conj_view(j));
                        let ghost cv = conj_view(c);
                        out.push(c);
                        assert(out@.map_values(|j: Conjunction| conj_view(j)) =~= prev.push(cv));
                    },
                    None => {
                        proof {
                            lemma_conjs_none_extends(views(parts@), i as int + 1);
                        }
                        return None;
                    },
                }
                i += 1;
            }
            assert(views(parts@).take(parts.len() as int) =~= views(parts@));
            Some(Condition::Any(out))
        } else {
            match conj_parse_exec(expr) {
                Some(c) => Some(Condition::Single(c)),
                None => None,
            }
        },
    }
}

/// An operand of a condition, or the value of an expression.
pub enum Expr {
    /// `$name`: a variable.
    Var(String),
    /// `$name.field`: a field of a map variable.
    Field(String, String),
    /// A quoted string.
    Str(String),
    Bool(bool),
    Nil,
    Int(i64),
    /// Anything else: a float if it reads as one, else the text itself.
    Other(String),
}

/// What an expression is (see `classify_expression`).
pub open spec fn expr_view(e: Expr) -> (int, Seq<char>, Seq<char>, int) {
    match e {
        Expr::Var(k) => (0, k@, Seq::empty(), 0),
        Expr::Field(a, b) => (1, a@, b@, 0),
        Expr::Str(t) => (2, t@, Seq::empty(), 0),
        Expr::Bool(b) => (3, Seq::empty(), Seq::empty(), if b {
            1
        } else {
            0
        }),
        Expr::Nil => (4, Seq::empty(), Seq::empty(), 0),
        Expr::Int(i) => (5, Seq::empty(), Seq::empty(), i as int),
        Expr::Other(t) => (6, t@, Seq::empty(), 0),
    }
}

/// The view of what an expression is.
pub open spec fn expression_of(s0: Seq<char>) -> Option<(int, Seq<char>, Seq<char>, int)> {
    let s = trim(s0);
    if starts_with(s, "$"@) {
        let key = s.drop_first();
        match split_once(key, "."@) {
            (a, Some(b)) => Some((1, a, b, 0)),
            (_, None) => Some((0, key, Seq::empty(), 0)),
        }
    } else if quoted(s) {
        if s.len() < 2 {
            None
        } else {
            Some((2, s.subrange(1, s.len() - 1), Seq::empty(), 0))
        }
    } else if s == "true"@ {
        Some((3, Seq::empty(), Seq::empty(), 1))
    } else if s == "false"@ {
        Some((3, Seq::empty(), Seq::empty(), 0))
    } else if s == "null"@ || s == "nil"@ {
        Some((4, Seq::empty(), Seq::empty(), 0))
    } else {
        match parse_i64(s) {
            Ok(i) => Some((5, Seq::empty(), Seq::empty(), i)),
            Err(_) => Some((6, s, Seq::empty(), 0)),
        }
    }
}

/// Classifies an expression of a condition.
pub fn classify_expression(s0: &str) -> (r: Option<Expr>)
    ensures
        match expression_of(s0@) {
            Some(v) => r matches Some(e) && expr_view(e) == v,
            None => r is None,
        },
{
    let s = trim_exec(s0);
    let cs = chars_of(s.as_str());
    if starts_with_exec(s.as_str(), "$") {
        proof {
            reveal_strlit("$");
        }
        let key = string_of_range(&cs, 1, cs.len());
        assert(key@ =~= s@.drop_first());
        let (a, rest) = crate::text::split_once_exec(key.as_str(), ".");
        return match rest {
            Some(b) => Some(Expr::Field(a, b)),
            None => Some(Expr::Var(key)),
        };
    }
    if quoted_exec(s.as_str()) {
        if cs.len() < 2 {
            return None;
        }
        return Some(Expr::Str(string_of_range(&cs, 1, cs.len() - 1)));
    }
    if s == owned("true") {
        return Some(Expr::Bool(true));
    }
    if s == owned("false") {
        return Some(Expr::Bool(false));
    }
    if s == owned("null") || s == owned("nil") {
        return Some(Expr::Nil);
    }
    match parse_i64_exec(s.as_str()) {
        Ok(i) => Some(Expr::Int(i)),
        Err(_) => Some(Expr::Other(s)),
    }
}

/// The variable a placeholder names: its text trimmed, without one leading `$`.
pub open spec fn placeholder_key(raw: Seq<char>) -> Seq<char> {
    let k = trim(raw);
    if starts_with(k, "$"@) {
        k.drop_first()
    } else {
        k
    }
}

/// One pass of interpolation over `cur` from `last`, with `vals[k]` the value
/// of the `k`-th placeholder (none standing for an unknown variable, which
/// leaves nothing): the text and whether a placeholder was closed. A `${`
/// without a closing `}` ends the pass; the text before it then appears twice,
/// as the scan leaves it.
pub open spec fn pass_from(cur: Seq<char>, last: int, vals: Seq<Option<Seq<char>>>, k: int) -> (Seq<char>, bool)
    decreases cur.len() - last,
{
    if last < 0 || last > cur.len() {
        (Seq::empty(), false)
    } else {
        match find_from(cur, "${"@, last) {
            None => (cur.subrange(last, cur.len() as int), false),
            Some(st) => match find_from(cur, "}"@, st) {
                None => (cur.subrange(last, st) + cur.subrange(last, cur.len() as int), false),
                Some(e) => {
                    proof {
                        crate::text::lemma_find_from_bounds(cur, "${"@, last);
                        crate::text::lemma_find_from_bounds(cur, "}"@, st);
                        reveal_strlit("}");
                    }
                    let v = if 0 <= k < vals.len() {
                        match vals[k] {
                            Some(x) => x,
                            None => Seq::empty(),
                        }
                    } else {
                        Seq::empty()
                    };
                    if last < e + 1 <= cur.len() {
                        let rest = pass_from(cur, e + 1, vals, k + 1);
                        (cur.subrange(last, st) + v + rest.0, true)
                    } else {
                        (Seq::empty(), true)
                    }
                },
            },
        }
    }
}

/// The variables the placeholders of one pass over `cur` from `last` name, in order.
pub open spec fn keys_from(cur: Seq<char>, last: int) -> Seq<Seq<char>>
    decreases cur.len() - last,
{
    if last < 0 || last > cur.len() {
        Seq::empty()
    } else {
        match find_from(cur, "${"@, last) {
            None => Seq::empty(),
            Some(st) => match find_from(cur, "}"@, st) {
                None => Seq::empty(),
                Some(e) => {
                    proof {
                        crate::text::lemma_find_from_bounds(cur, "${"@, last);
                        crate::text::lemma_find_from_bounds(cur, "}"@, st);
                        reveal_strlit("}");
                    }
                    if last < e + 1 <= cur.len() {
                        seq![placeholder_key(cur.subrange(st + 2, e))] + keys_from(cur, e + 1)
                    } else {
                        Seq::empty()
                    }
                },
            },
        }
    }
}

/// The variable a placeholder names.
fn placeholder_key_exec(raw: &str) -> (r: String)
    ensures
        r@ == placeholder_key(raw@),
{
    let k = trim_exec(raw);
    if starts_with_exec(k.as_str(), "$") {
        proof {
            reveal_strlit("$");
        }
        let cs = chars_of(k.as_str());
        let r = string_of_range(&cs, 1, cs.len());
        assert(r@ =~= k@.drop_first());
        r
    } else {
        k
    }
}

/// The variables the placeholders of one interpolation pass over `cur` name,
/// in order; the values handed to `interpolate_pass` follow this order.
pub fn placeholder_keys(cur: &str) -> (r: Vec<String>)
    ensures
        views(r@) == keys_from(cur@, 0),
{
    let cs = chars_of(cur);
    let open = chars_of("${");
    let close = chars_of("}");
    let mut out: Vec<String> = Vec::new();
    let mut last: usize = 0;
    while last <= cs.len()
        invariant
            last <= cs.len() + 1,
            cs@ == cur@,
            open@ == "${"@,
            close@ == "}"@,
            last <= cs.len() ==> keys_from(cur@, 0) == views(out@) + keys_from(cur@, last as int),
            last > cs.len() ==> keys_from(cur@, 0) == views(out@),
        decreases cs.len() + 1 - last,
    {
        match find_from_exec(&cs, &open, last) {
            None => {
                assert(views(out@) + Seq::<Seq<char>>::empty() =~= views(out@));
                return out;
            },
            Some(st) => match find_from_exec(&cs, &close, st) {
                None => {
                    assert(views(out@) + Seq::<Seq<char>>::empty() =~= views(out@));
                    return out;
                },
                Some(e) => {
                    proof {
                        crate::text::lemma_find_from_bounds(cur@, "${"@, last as int);
                        crate::text::lemma_find_from_bounds(cur@, "}"@, st as int);
                        reveal_strlit("${");
                        reveal_strlit("}");
                        assert(cur@.subrange(st as int, st + 2) == "${"@);
                        assert(cur@.subrange(st as int, st + 2)[0] == '$');
                        assert(cur@.subrange(st as int, st + 2)[1] == '{');
                        assert(cur@.subrange(e as int, e + 1)[0] == '}');
                    }
                    assert(cs@[st as int] == '$' && cs@[st + 1] == '{');
                    assert(e >= st + 2);
                    let raw = string_of_range(&cs, st + 2, e);
                    let key = placeholder_key_exec(raw.as_str());
                    let ghost prev = views(out@);
                    out.push(key);
                    assert(views(out@) =~= prev.push(key@));
                    assert(prev + keys_from(cur@, last as int) =~= views(out@) + keys_from(cur@, e + 1));
                    last = e + 1;
                },
            },
        }
    }
    out
}

/// One pass of interpolation over `cur`, with `vals` the values of its
/// placeholders in order: the text and whether a placeholder was closed.
pub fn interpolate_pass(cur: &str, vals: &Vec<Option<String>>) -> (r: (String, bool))
    ensures
        (r.0@, r.1) == pass_from(cur@, 0, vals@.map_values(|v: Option<String>| crate::network::opt_text(v)), 0),
{
    let ghost vv = vals@.map_values(|v: Option<String>| crate::network::opt_text(v));
    let cs = chars_of(cur);
    let open = chars_of("${");
    let close = chars_of("}");
    let mut out = String::new();
    let mut replaced = false;
    let mut last: usize = 0;
    let mut k: usize = 0;
    while last <= cs.len()
        invariant
            last <= cs.len(),
            cs@ == cur@,
            open@ == "${"@,
            close@ == "}"@,
            vv == vals@.map_values(|v: Option<String>| crate::network::opt_text(v)),
            k <= last,
            pass_from(cur@, 0, vv, 0) == (out@ + pass_from(cur@, last as int, vv, k as int).0, replaced || pass_from(
                cur@,
                last as int,
                vv,
                k as int,
            ).1),
        decreases cs.len() + 1 - last,
    {
        match find_from_exec(&cs, &open, last) {
            None => {
                let tail = string_of_range(&cs, last, cs.len());
                return (concat(out.as_str(), tail.as_str()), replaced);
            },
            Some(st) => match find_from_exec(&cs, &close, st) {
                None => {
                    let pre = string_of_range(&cs, last, st);
                    let tail = string_of_range(&cs, last, cs.len());
                    let a = concat3(out.as_str(), pre.as_str(), tail.as_str());
                    assert(a@ =~= out@ + (cs@.subrange(last as int, st as int) + cs@.subrange(last as int, cs@.len() as int)));
                    return (a, replaced);
                },
                Some(e) => {
                    proof {
                        crate::text::lemma_find_from_bounds(cur@, "${"@, last as int);
                        crate::text::lemma_find_from_bounds(cur@, "}"@, st as int);
                        reveal_strlit("}");
                    }
                    let pre = string_of_range(&cs, last, st);
                    let v = if k < vals.len() {
                        match &vals[k] {
                            Some(x) => x.clone(),
                            None => String::new(),
                        }
                    } else {
                        String::new()
                    };
                    let ghost old_out = out@;
                    out = concat3(out.as_str(), pre.as_str(), v.as_str());
                    assert(out@ =~= old_out + cs@.subrange(last as int, st as int) + v@);
                    replaced = true;
                    last = e + 1;
                    k = k + 1;
                },
            },
        }
    }
    (out, replaced)
}

/// Whether interpolation goes on with another pass: fewer than ten passes
/// were made and the text still holds `${`.
pub fn interpolation_continues(passes: u32, cur: &str) -> (b: bool)
    ensures
        b == (passes < 10 && contains(cur@, "${"@)),
{
    passes < 10 && contains_exec(cur, "${")
}

/// Text without a `${` is left as it is: no pass runs, and a pass would give
/// it back unchanged, with nothing replaced.
pub proof fn law_interpolation_without_placeholders(cur: Seq<char>, vals: Seq<Option<Seq<char>>>, passes: u32)
    requires
        !contains(cur, "${"@),
    ensures
        !(passes < 10 && contains(cur, "${"@)),
        pass_from(cur, 0, vals, 0) == (cur, false),
{
    assert(cur.subrange(0, cur.len() as int) =~= cur);
}

/// A search for `p` passes over characters other than its first.
proof fn lemma_find_passes(s: Seq<char>, p: Seq<char>, i: int, k: int)
    requires
        0 <= i <= k,
        p.len() >= 1,
        forall|j: int| i <= j < k ==> s[j] != p[0],
    ensures
        find_from(s, p, i) == find_from(s, p, k),
{
    assert forall|j: int| i <= j < k implies !#[trigger] crate::text::matches_at(s, p, j) by {
        if crate::text::matches_at(s, p, j) {
            assert(s.subrange(j, j + p.len())[0] == s[j]);
        }
    }
    crate::text::lemma_find_from_skip(s, p, i, k);
}

/// Interpolating text with two placeholders, `a${k1}b${k2}c`, puts the first
/// value where the first placeholder stood and the second value where the
/// second stood, and the keys are listed in that order.
pub proof fn law_placeholders_take_their_own_values(
    a: Seq<char>,
    k1: Seq<char>,
    b: Seq<char>,
    k2: Seq<char>,
    c: Seq<char>,
    x: Seq<char>,
    y: Seq<char>,
)
    requires
        !a.contains('$'),
        !b.contains('$'),
        !c.contains('$'),
        !k1.contains('}'),
        !k2.contains('}'),
    ensures
        ({
            let cur = a + "${"@ + k1 + "}"@ + b + "${"@ + k2 + "}"@ + c;
            &&& pass_from(cur, 0, seq![Some(x), Some(y)], 0) == (a + x + b + y + c, true)
            &&& keys_from(cur, 0) == seq![placeholder_key(k1), placeholder_key(k2)]
        }),
{
    reveal_strlit("${");
    reveal_strlit("}");
    let open = "${"@;
    let close = "}"@;
    assert(open =~= seq!['$', '{']);
    assert(close =~= seq!['}']);
    let cur = a + open + k1 + close + b + open + k2 + close + c;
    let vals = seq![Some(x), Some(y)];
    let st1 = a.len() as int;
    let e1 = st1 + 2 + k1.len();
    let st2 = e1 + 1 + b.len();
    let e2 = st2 + 2 + k2.len();
    assert(cur.len() == e2 + 1 + c.len());
    // Where the placeholders stand.
    assert forall|j: int| 0 <= j < st1 implies cur[j] != '$' by {
        assert(cur[j] == a[j]);
        assert(a.contains(a[j]));
    }
    assert forall|j: int| st1 <= j < e1 implies cur[j] != '}' by {
        if j >= st1 + 2 {
            assert(cur[j] == k1[j - st1 - 2]);
            assert(k1.contains(k1[j - st1 - 2]));
        }
    }
    assert forall|j: int| e1 + 1 <= j < st2 implies cur[j] != '$' by {
        assert(cur[j] == b[j - e1 - 1]);
        assert(b.contains(b[j - e1 - 1]));
    }
    assert forall|j: int| st2 <= j < e2 implies cur[j] != '}' by {
        if j >= st2 + 2 {
            assert(cur[j] == k2[j - st2 - 2]);
            assert(k2.contains(k2[j - st2 - 2]));
        }
    }
    assert forall|j: int| e2 + 1 <= j < cur.len() implies cur[j] != '$' by {
        assert(cur[j] == c[j - e2 - 1]);
        assert(c.contains(c[j - e2 - 1]));
    }
    lemma_find_passes(cur, open, 0, st1);
    lemma_find_passes(cur, close, st1, e1);
    lemma_find_passes(cur, open, e1 + 1, st2);
    lemma_find_passes(cur, close, st2, e2);
    lemma_find_passes(cur, open, e2 + 1, cur.len() as int);
    assert(cur.subrange(st1, st1 + 2) =~= open);
    assert(cur.subrange(e1, e1 + 1) =~= close);
    assert(cur.subrange(st2, st2 + 2) =~= open);
    assert(cur.subrange(e2, e2 + 1) =~= close);
    assert(find_from(cur, open, 0) == Some(st1));
    assert(find_from(cur, close, st1) == Some(e1));
    assert(find_from(cur, open, e1 + 1) == Some(st2));
    assert(find_from(cur, close, st2) == Some(e2));
    assert(find_from(cur, open, e2 + 1) is None);
    // The pieces between them.
    assert(cur.subrange(0, st1) =~= a);
    assert(cur.subrange(e1 + 1, st2) =~= b);
    assert(cur.subrange(e2 + 1, cur.len() as int) =~= c);
    assert(cur.subrange(st1 + 2, e1) =~= k1);
    assert(cur.subrange(st2 + 2, e2) =~= k2);
    assert(pass_from(cur, e2 + 1, vals, 2) == (c, false));
    assert(pass_from(cur, e1 + 1, vals, 1) == (b + y + c, true));
    assert(pass_from(cur, 0, vals, 0) == (a + x + (b + y + c), true));
    assert(a + x + (b + y + c) =~= a + x + b + y + c);
    assert(keys_from(cur, e2 + 1) == Seq::<Seq<char>>::empty());
    assert(keys_from(cur, e1 + 1) == seq![placeholder_key(k2)] + Seq::<Seq<char>>::empty());
    assert(keys_from(cur, 0) =~= seq![placeholder_key(k1), placeholder_key(k2)]);
}

} // verus!
