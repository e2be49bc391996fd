//! The evaluator: walks a program's statements in order against a
//! name-to-value environment, accumulating printed lines. A binding stores
//! the value of its expression under its name (last write wins); a print
//! appends the value of its expression to the output. An unbound variable
//! evaluates to a placeholder text rather than a failure, so evaluation is
//! total. The printed lines are joined with single newlines, with no trailing
//! newline.

use vstd::prelude::*;
use vstd::string::StringExecFns;

use crate::ast::{Expression, ExprView, Program, Statement, StmtView};
use crate::text::str_eq;

verus! {

/// The mapping an association list stands for: later entries win.
pub open spec fn store_map(s: Seq<(String, String)>) -> Map<Seq<char>, Seq<char>>
    decreases s.len(),
{
    if s.len() == 0 {
        Map::empty()
    } else {
        store_map(s.drop_last()).insert(s.last().0@, s.last().1@)
    }
}

/// The keys of an association list are pairwise distinct.
pub open spec fn distinct_keys(s: Seq<(String, String)>) -> bool {
    forall|i: int, j: int| 0 <= i < j < s.len() ==> s[i].0@ != s[j].0@
}

/// A key is in the mapping exactly when some entry carries it.
proof fn lemma_store_map_contains(s: Seq<(String, String)>, k: Seq<char>)
    ensures
        store_map(s).contains_key(k) <==> exists|i: int| 0 <= i < s.len() && s[i].0@ == k,
    decreases s.len(),
{
    if s.len() > 0 {
        lemma_store_map_contains(s.drop_last(), k);
        if store_map(s).contains_key(k) {
            if s.last().0@ == k {
                assert(s[s.len() - 1].0@ == k);
            } else {
                let i = choose|i: int| 0 <= i < s.drop_last().len() && s.drop_last()[i].0@ == k;
                assert(s[i].0@ == k);
            }
        }
        if exists|i: int| 0 <= i < s.len() && s[i].0@ == k {
            let i = choose|i: int| 0 <= i < s.len() && s[i].0@ == k;
            if i < s.len() - 1 {
                assert(s.drop_last()[i].0@ == k);
            }
        }
    }
}

/// With distinct keys, the entry that carries a key gives its value.
proof fn lemma_store_map_entry(s: Seq<(String, String)>, i: int)
    requires
        distinct_keys(s),
        0 <= i < s.len(),
    ensures
        store_map(s).contains_key(s[i].0@),
        store_map(s)[s[i].0@] == s[i].1@,
    decreases s.len(),
{
    if i == s.len() - 1 {
    } else {
        assert(distinct_keys(s.drop_last())) by {
            assert(forall|x: int, y: int|
                0 <= x < y < s.drop_last().len() ==> s.drop_last()[x].0@ == s[x].0@
                    && s.drop_last()[y].0@ == s[y].0@);
        }
        assert(s.drop_last()[i] == s[i]);
        lemma_store_map_entry(s.drop_last(), i);
        assert(s.last().0@ != s[i].0@);
    }
}

/// With distinct keys, removing the entry that carries a key removes exactly
/// that key from the mapping.
proof fn lemma_store_map_remove(s: Seq<(String, String)>, i: int)
    requires
        distinct_keys(s),
        0 <= i < s.len(),
    ensures
        store_map(s.remove(i)) == store_map(s).remove(s[i].0@),
    decreases s.len(),
{
    let k = s[i].0@;
    assert(distinct_keys(s.drop_last())) by {
        assert(forall|x: int, y: int|
            0 <= x < y < s.drop_last().len() ==> s.drop_last()[x].0@ == s[x].0@
                && s.drop_last()[y].0@ == s[y].0@);
    }
    if i == s.len() - 1 {
        assert(s.remove(i) =~= s.drop_last());
        lemma_store_map_contains(s.drop_last(), k);
        assert(forall|j: int| 0 <= j < s.drop_last().len() ==> s.drop_last()[j] == s[j]);
        assert(!store_map(s.drop_last()).contains_key(k));
        assert(store_map(s.drop_last()) =~= store_map(s.drop_last()).insert(k, s[i].1@).remove(k));
    } else {
        lemma_store_map_remove(s.drop_last(), i);
        assert(s.remove(i).drop_last() =~= s.drop_last().remove(i));
        assert(s.remove(i).last() == s.last());
        assert(store_map(s.remove(i)) == store_map(s.drop_last().remove(i)).insert(
            s.last().0@,
            s.last().1@,
        ));
        assert(s.last().0@ != k);
        assert(store_map(s.drop_last()).remove(k).insert(s.last().0@, s.last().1@) =~= store_map(
            s.drop_last(),
        ).insert(s.last().0@, s.last().1@).remove(k));
    }
}

/// The name-to-value mapping used during evaluation: keys unique, last write
/// wins, point lookups only.
pub struct Environment {
    store: Vec<(String, String)>,
}

impl View for Environment {
    type V = Map<Seq<char>, Seq<char>>;

    closed spec fn view(&self) -> Map<Seq<char>, Seq<char>> {
        store_map(self.store@)
    }
}

impl Environment {
    /// The environment's internal consistency: no two entries share a name.
    pub closed spec fn wf(&self) -> bool {
        distinct_keys(self.store@)
    }

    pub fn new() -> (e: Environment)
        ensures
            e.wf(),
            e@ == Map::<Seq<char>, Seq<char>>::empty(),
    {
        Environment { store: Vec::new() }
    }

    /// Stores `value` under `name`, overwriting any prior binding.
    pub fn set(&mut self, name: String, value: String)
        requires
            old(self).wf(),
        ensures
            final(self).wf(),
            final(self)@ == old(self)@.insert(name@, value@),
    {
        let n: usize = self.store.len();
        let mut i: usize = 0;
        while i < n
            invariant
                self.store@ == old(self).store@,
                n == old(self).store@.len(),
                i <= n,
                distinct_keys(old(self).store@),
                forall|j: int| 0 <= j < i ==> old(self).store@[j].0@ != name@,
            decreases n - i,
        {
            let ghost s0 = old(self).store@;
            if str_eq(self.store[i].0.as_str(), name.as_str()) {
                proof {
                    lemma_store_map_remove(s0, i as int);
                }
                let ghost k = s0[i as int].0@;
                let _replaced = self.store.remove(i);
                self.store.push((name, value));
                proof {
                    assert(k == name@);
                    assert(self.store@.drop_last() =~= s0.remove(i as int));
                    assert(self.store@.last() == (name, value));
                    assert(store_map(self.store@) == store_map(s0.remove(i as int)).insert(
                        name@,
                        value@,
                    ));
                    assert(forall|x: int, y: int|
                        0 <= x < y < s0.remove(i as int).len() ==> #[trigger] s0.remove(
                            i as int,
                        )[x].0@ != #[trigger] s0.remove(i as int)[y].0@);
                    assert(forall|x: int| 0 <= x < s0.remove(i as int).len() ==> s0.remove(
                        i as int,
                    )[x].0@ != k);
                    assert(store_map(s0).remove(k).insert(k, value@) =~= store_map(s0).insert(
                        k,
                        value@,
                    ));
                    assert(store_map(self.store@) == store_map(s0).insert(name@, value@));
                    assert(old(self)@ == store_map(s0));
                }
                return ;
            }
            i = i + 1;
        }
        proof {
            lemma_store_map_contains(old(self).store@, name@);
        }
        self.store.push((name, value));
        proof {
            assert(self.store@.drop_last() =~= old(self).store@);
        }
    }

    /// Looks up the current binding of `name`, if any.
    pub fn get(&self, name: &str) -> (r: Option<&String>)
        requires
            self.wf(),
        ensures
            match r {
                Some(v) => self@.contains_key(name@) && v@ == self@[name@],
                None => !self@.contains_key(name@),
            },
    {
        let n: usize = self.store.len();
        let mut i: usize = 0;
        while i < n
            invariant
                self.wf(),
                n == self.store@.len(),
                i <= n,
                forall|j: int| 0 <= j < i ==> self.store@[j].0@ != name@,
            decreases n - i,
        {
            let pair = &self.store[i];
            if str_eq(pair.0.as_str(), name) {
                proof {
                    lemma_store_map_entry(self.store@, i as int);
                }
                return Some(&pair.1);
            }
            i = i + 1;
        }
        proof {
            lemma_store_map_contains(self.store@, name@);
        }
        None
    }
}

/// Rebinding: storing twice under one name keeps only the later value. Since
/// `Environment::set` ensures the view becomes `insert(name, value)`, two
/// sets of the same name leave the environment exactly as the second alone
/// would, whatever was bound before.
pub proof fn lemma_rebinding_last_write_wins(
    env: Map<Seq<char>, Seq<char>>,
    name: Seq<char>,
    first: Seq<char>,
    second: Seq<char>,
)
    ensures
        env.insert(name, first).insert(name, second) == env.insert(name, second),
{
    assert(env.insert(name, first).insert(name, second) =~= env.insert(name, second));
}

impl Default for Environment {
    fn default() -> (e: Environment)
        ensures
            e.wf(),
            e@ == Map::<Seq<char>, Seq<char>>::empty(),
    {
        Environment::new()
    }
}

/// The placeholder text an unbound variable evaluates to.
pub open spec fn undef_text(name: Seq<char>) -> Seq<char> {
    "[undefined variable: "@ + name + "]"@
}

/// What an expression evaluates to under an environment: a literal is its own
/// text, a variable reference is its current value, or the placeholder text
/// if it is unbound.
pub open spec fn eval_expr_spec(e: ExprView, env: Map<Seq<char>, Seq<char>>) -> Seq<char> {
    match e {
        ExprView::StrLit(s) => s,
        ExprView::Ident(n) => if env.contains_key(n) {
            env[n]
        } else {
            undef_text(n)
        },
    }
}

/// The environment after running the statements, in order, from `env`: each
/// binding inserts its value, each print leaves the environment unchanged.
pub open spec fn env_after(stmts: Seq<StmtView>, env: Map<Seq<char>, Seq<char>>) -> Map<
    Seq<char>,
    Seq<char>,
> decreases stmts.len() {
    if stmts.len() == 0 {
        env
    } else {
        let prev = env_after(stmts.drop_last(), env);
        match stmts.last() {
            StmtView::Let { name, value } => prev.insert(name, eval_expr_spec(value, prev)),
            StmtView::Print { .. } => prev,
        }
    }
}

/// The lines printed while running the statements, in order, from `env`.
pub open spec fn lines_after(stmts: Seq<StmtView>, env: Map<Seq<char>, Seq<char>>) -> Seq<
    Seq<char>,
> decreases stmts.len() {
    if stmts.len() == 0 {
        Seq::empty()
    } else {
        let prev = lines_after(stmts.drop_last(), env);
        match stmts.last() {
            StmtView::Print { value } => prev.push(
                eval_expr_spec(value, env_after(stmts.drop_last(), env)),
            ),
            StmtView::Let { .. } => prev,
        }
    }
}

/// The printed lines joined with single newlines: empty for no lines, and no
/// trailing newline otherwise.
pub open spec fn join_lines(lines: Seq<Seq<char>>) -> Seq<char>
    decreases lines.len(),
{
    if lines.len() == 0 {
        Seq::empty()
    } else if lines.len() == 1 {
        lines[0]
    } else {
        join_lines(lines.drop_last()) + "\n"@ + lines.last()
    }
}

/// Printed lines are newline-joined with no trailing newline: a further line
/// goes after exactly one newline when lines came before it, and stands alone
/// when none did. Since `eval` ensures its output is `join_lines` of the
/// printed lines, this pins how every print extends the output.
pub proof fn lemma_print_lines_newline_joined(lines: Seq<Seq<char>>, line: Seq<char>)
    ensures
        join_lines(lines.push(line)) == if lines.len() == 0 {
            line
        } else {
            join_lines(lines) + "\n"@ + line
        },
{
    assert(lines.push(line).drop_last() =~= lines);
}

/// What an expression evaluates to: its own text for a literal, the
/// environment's current value for a bound variable, and the placeholder text
/// for an unbound one.
fn eval_expression(expr: &Expression, env: &Environment) -> (val: String)
    requires
        env.wf(),
    ensures
        val@ == eval_expr_spec(expr@, env@),
{
    match expr {
        Expression::StringLiteral(sl) => sl.value.clone(),
        Expression::Identifier(ident) => {
            match env.get(ident.value.as_str()) {
                Some(v) => v.clone(),
                None => {
                    let mut val = String::new();
                    val.append("[undefined variable: ");
                    val.append(ident.value.as_str());
                    val.append("]");
                    proof {
                        assert(val@ =~= undef_text(ident.value@));
                    }
                    val
                },
            }
        },
    }
}

/// Walks the program's statements in order against `env`, accumulating the
/// printed lines, and returns them joined with single newlines and with no
/// trailing newline.
pub fn eval(program: &Program, env: &mut Environment) -> (output: String)
    requires
        old(env).wf(),
    ensures
        final(env).wf(),
        final(env)@ == env_after(program@, old(env)@),
        output@ == join_lines(lines_after(program@, old(env)@)),
{
    let ghost env0 = env@;
    let ghost stmts = program@;
    let mut output = String::new();
    let mut printed_any = false;
    let n: usize = program.statements.len();
    let mut i: usize = 0;
    while i < n
        invariant
            env.wf(),
            n == program.statements@.len(),
            stmts == program@,
            i <= n,
            env@ == env_after(stmts.take(i as int), env0),
            printed_any == (lines_after(stmts.take(i as int), env0).len() > 0),
            output@ == join_lines(lines_after(stmts.take(i as int), env0)),
        decreases n - i,
    {
        proof {
            assert(stmts.take(i + 1).drop_last() =~= stmts.take(i as int));
            assert(stmts.take(i + 1).last() == stmts[i as int]);
            assert(program.statements@[i as int]@ == stmts[i as int]);
        }
        let stmt = &program.statements[i];
        match stmt {
            Statement::Let(let_stmt) => {
                let val = eval_expression(&let_stmt.value, env);
                env.set(let_stmt.name.value.clone(), val);
            },
            Statement::Print(print_stmt) => {
                let ghost lines = lines_after(stmts.take(i as int), env0);
                let val = eval_expression(&print_stmt.value, env);
                if printed_any {
                    output.append("\n");
                }
                output.append(val.as_str());
                printed_any = true;
                proof {
                    if lines.len() == 0 {
                        assert(lines.push(val@) =~= seq![val@]);
                        assert(join_lines(seq![val@]) == val@);
                        assert(output@ =~= val@);
                    } else {
                        assert(lines.push(val@).drop_last() =~= lines);
                    }
                }
            },
        }
        i = i + 1;
    }
    proof {
        assert(stmts.take(n as int) =~= stmts);
    }
    output
}

} // verus!
