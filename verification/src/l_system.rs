//! The L-system rewriting engine.
//!
//! An [`Axiom`] is an ordered sequence of single-character [`Atom`]s.  A
//! [`RuleSet`] maps left-hand atoms to replacement sequences; applying it
//! rewrites every atom of a sequence in one simultaneous pass, splicing in
//! the matching replacement or keeping the atom when no rule matches.

use vstd::prelude::*;
use vstd::string::StrSliceExecFns;
use vstd::string::StringExecFns;
use crate::text::push_char;

verus! {

/// Error raised when textual input cannot represent a grammar element.
#[derive(Debug)]
pub struct RepresentationError {
    message: String,
}

impl View for RepresentationError {
    type V = Seq<char>;

    /// The error's own message, without the common prefix.
    closed spec fn view(&self) -> Seq<char> {
        self.message@
    }
}

/// The full text that [`RepresentationError::message`] renders for an
/// inner message `msg`.
pub open spec fn representation_error_text(msg: Seq<char>) -> Seq<char> {
    "There was an Error with the Representation of an L-System Element: "@ + msg + "."@
}

impl RepresentationError {
    pub fn new(message: &str) -> (e: RepresentationError)
        ensures
            e@ == message@,
    {
        RepresentationError { message: String::from_str(message) }
    }

    /// Renders the error as one sentence naming the inner message.
    pub fn message(&self) -> (r: String)
        ensures
            r@ == representation_error_text(self@),
    {
        let mut r = String::from_str(
            "There was an Error with the Representation of an L-System Element: ",
        );
        r.append(self.message.as_str());
        r.append(".");
        r
    }
}

/// A single grammar symbol.
#[derive(Copy, Clone, PartialEq, Eq, Structural, Debug, Hash, PartialOrd, Ord)]
pub struct Atom {
    pub symbol: char,
}

/// The atom standing for the character `c`.
pub open spec fn atom_of(c: char) -> Atom {
    Atom { symbol: c }
}

/// The atoms standing for each character of `s`, in order.
pub open spec fn atoms_of(s: Seq<char>) -> Seq<Atom> {
    s.map_values(|c: char| atom_of(c))
}

/// The characters of each atom of `atoms`, in order.
pub open spec fn chars_of(atoms: Seq<Atom>) -> Seq<char> {
    atoms.map_values(|a: Atom| a.symbol)
}

/// Law: rendering the atoms made from a string gives the string back,
/// character for character.
pub proof fn lemma_atoms_chars_round_trip(s: Seq<char>)
    ensures
        chars_of(atoms_of(s)) == s,
{
    assert forall|i: int| 0 <= i < s.len() implies chars_of(atoms_of(s))[i] == s[i] by {
        assert(atoms_of(s)[i] == atom_of(s[i]));
    }
    assert(chars_of(atoms_of(s)) =~= s);
}

/// Extending a prefix of `s` by one character extends its atoms by one atom.
proof fn lemma_atoms_of_take_step(s: Seq<char>, i: int)
    requires
        0 <= i < s.len(),
    ensures
        atoms_of(s.take(i + 1)) == atoms_of(s.take(i)).push(atom_of(s[i])),
{
    let a = atoms_of(s.take(i + 1));
    let b = atoms_of(s.take(i)).push(atom_of(s[i]));
    assert(s.take(i + 1).len() == i + 1);
    assert(a.len() == i + 1);
    assert forall|k: int| 0 <= k < a.len() implies a[k] == b[k] by {
        assert(s.take(i + 1)[k] == s[k]);
        if k < i {
            assert(s.take(i)[k] == s[k]);
        }
    }
    assert(a =~= b);
}

/// Extending a prefix of `atoms` by one atom extends its characters by one.
proof fn lemma_chars_of_take_step(atoms: Seq<Atom>, i: int)
    requires
        0 <= i < atoms.len(),
    ensures
        chars_of(atoms.take(i + 1)) == chars_of(atoms.take(i)).push(atoms[i].symbol),
{
    let a = chars_of(atoms.take(i + 1));
    let b = chars_of(atoms.take(i)).push(atoms[i].symbol);
    assert(atoms.take(i + 1).len() == i + 1);
    assert(a.len() == i + 1);
    assert forall|k: int| 0 <= k < a.len() implies a[k] == b[k] by {
        assert(atoms.take(i + 1)[k] == atoms[k]);
        if k < i {
            assert(atoms.take(i)[k] == atoms[k]);
        }
    }
    assert(a =~= b);
}

impl Atom {
    pub fn from_string(string_representation: &str) -> (r: Result<Atom, RepresentationError>)
        ensures
            match r {
                Ok(atom) => string_representation@.len() == 1 && atom.symbol
                    == string_representation@[0],
                Err(e) => {
                    if string_representation@.len() == 0 {
                        e@ == "Atom is empty"@
                    } else {
                        string_representation@.len() > 1 && e@
                            == "Atom contains more that one character"@
                    }
                },
            },
    {
        let n = string_representation.unicode_len();
        if n == 0 {
            Err(RepresentationError::new("Atom is empty"))
        } else if n > 1 {
            Err(RepresentationError::new("Atom contains more that one character"))
        } else {
            Ok(Atom::from_char(string_representation.get_char(0)))
        }
    }

    pub fn from_char(char_representation: char) -> (atom: Atom)
        ensures
            atom.symbol == char_representation,
    {
        Atom { symbol: char_representation }
    }

    /// The atom's one-character textual form.
    pub fn as_string(&self) -> (r: String)
        ensures
            r@ == seq![self.symbol],
    {
        let mut r = String::new();
        push_char(&mut r, self.symbol);
        r
    }
}

/// An ordered sequence of atoms: the seed of an L-system, or the result
/// of any number of rewriting generations.
pub struct Axiom {
    pub atom_list: Vec<Atom>,
}

impl Axiom {
    pub fn from(string_representation: &str) -> (r: Result<Axiom, RepresentationError>)
        ensures
            match r {
                Ok(ax) => string_representation@.len() > 0 && ax.atom_list@ == atoms_of(
                    string_representation@,
                ),
                Err(e) => string_representation@.len() == 0 && e@ == "Axiom is empty"@,
            },
    {
        let n = string_representation.unicode_len();
        if n == 0 {
            return Err(RepresentationError::new("Axiom is empty"));
        }
        let mut atom_list: Vec<Atom> = Vec::new();
        let mut i: usize = 0;
        proof {
            assert(atoms_of(string_representation@.take(0)).len() == 0);
            assert(atom_list@ =~= atoms_of(string_representation@.take(0)));
        }
        while i < n
            invariant
                n == string_representation@.len(),
                i <= n,
                atom_list@ == atoms_of(string_representation@.take(i as int)),
            decreases n - i,
        {
            atom_list.push(Atom::from_char(string_representation.get_char(i)));
            proof {
                lemma_atoms_of_take_step(string_representation@, i as int);
            }
            i = i + 1;
        }
        proof {
            assert(string_representation@.take(n as int) =~= string_representation@);
        }
        Ok(Axiom { atom_list })
    }

    /// The sequence's textual form: one character per atom, in order.
    pub fn as_string(&self) -> (r: String)
        ensures
            r@ == chars_of(self.atom_list@),
    {
        let mut r = String::new();
        let mut i: usize = 0;
        while i < self.atom_list.len()
            invariant
                i <= self.atom_list.len(),
                r@ == chars_of(self.atom_list@.take(i as int)),
            decreases self.atom_list.len() - i,
        {
            push_char(&mut r, self.atom_list[i].symbol);
            proof {
                lemma_chars_of_take_step(self.atom_list@, i as int);
            }
            i = i + 1;
        }
        proof {
            assert(self.atom_list@.take(self.atom_list@.len() as int) =~= self.atom_list@);
        }
        r
    }

    /// The atoms of this sequence.
    pub fn atoms(&self) -> (r: &Vec<Atom>)
        ensures
            r@ == self.atom_list@,
    {
        &self.atom_list
    }
}

/// A single production: one left-hand atom and its replacement sequence.
/// The replacement is never empty.
pub struct Rule {
    pub lhs: Atom,
    pub rhs: Axiom,
}

/// Whitespace as the rule parser strips it from either side of `->`.
pub open spec fn is_space_char(c: char) -> bool {
    c == ' ' || c == '\t' || c == '\n' || c == '\r'
}

/// `s` with leading whitespace removed.
pub open spec fn trim_start_spec(s: Seq<char>) -> Seq<char>
    decreases s.len(),
{
    if s.len() > 0 && is_space_char(s[0]) {
        trim_start_spec(s.drop_first())
    } else {
        s
    }
}

/// `s` with trailing whitespace removed.
pub open spec fn trim_end_spec(s: Seq<char>) -> Seq<char>
    decreases s.len(),
{
    if s.len() > 0 && is_space_char(s.last()) {
        trim_end_spec(s.drop_last())
    } else {
        s
    }
}

/// `s` with whitespace removed from both ends.
pub open spec fn trim_spec(s: Seq<char>) -> Seq<char> {
    trim_end_spec(trim_start_spec(s))
}

/// When the first `i` characters are spaces and the `i`th is not,
/// trimming the start drops exactly those `i` characters.
proof fn lemma_trim_start_skip(s: Seq<char>, i: int)
    requires
        0 <= i <= s.len(),
        forall|k: int| 0 <= k < i ==> is_space_char(#[trigger] s[k]),
        i == s.len() || !is_space_char(s[i]),
    ensures
        trim_start_spec(s) == s.skip(i),
    decreases i,
{
    if i == 0 {
        assert(s.skip(0) =~= s);
    } else {
        assert(is_space_char(s[0]));
        lemma_trim_start_skip(s.drop_first(), i - 1);
        assert(s.drop_first().skip(i - 1) =~= s.skip(i));
    }
}

/// When everything from position `j` on is a space and the character
/// before `j` is not, trimming the end keeps exactly the first `j`.
proof fn lemma_trim_end_take(s: Seq<char>, j: int)
    requires
        0 <= j <= s.len(),
        forall|k: int| j <= k < s.len() ==> is_space_char(#[trigger] s[k]),
        j == 0 || !is_space_char(s[j - 1]),
    ensures
        trim_end_spec(s) == s.take(j),
    decreases s.len(),
{
    if j == s.len() {
        if s.len() == 0 {
            assert(trim_end_spec(s) == s);
            assert(s.take(0) =~= s);
        } else {
            assert(!is_space_char(s.last()));
            assert(s.take(j) =~= s);
        }
    } else {
        assert(is_space_char(s[s.len() - 1]));
        lemma_trim_end_take(s.drop_last(), j);
        assert(s.drop_last().take(j) =~= s.take(j));
    }
}

fn is_space(c: char) -> (b: bool)
    ensures
        b == is_space_char(c),
{
    c == ' ' || c == '\t' || c == '\n' || c == '\r'
}

/// Removes whitespace from both ends of `s`.
fn trim_str<'a>(s: &'a str) -> (t: &'a str)
    ensures
        t@ == trim_spec(s@),
{
    let n = s.unicode_len();
    let mut start: usize = 0;
    while start < n && is_space(s.get_char(start))
        invariant
            n == s@.len(),
            start <= n,
            forall|k: int| 0 <= k < start ==> is_space_char(#[trigger] s@[k]),
        decreases n - start,
    {
        start = start + 1;
    }
    let mut end: usize = n;
    while end > start && is_space(s.get_char(end - 1))
        invariant
            n == s@.len(),
            start <= end <= n,
            forall|k: int| end <= k < n ==> is_space_char(#[trigger] s@[k]),
        decreases end,
    {
        end = end - 1;
    }
    proof {
        lemma_trim_start_skip(s@, start as int);
        let u = s@.skip(start as int);
        assert forall|k: int| (end - start) <= k < u.len() implies is_space_char(
            #[trigger] u[k],
        ) by {
            assert(u[k] == s@[start + k]);
        }
        if end > start {
            assert(u[end - start - 1] == s@[end - 1]);
        }
        lemma_trim_end_take(u, end - start);
        assert(u.take(end - start) =~= s@.subrange(start as int, end as int));
    }
    s.substring_char(start, end)
}

/// There is a `->` starting at position `i` of `s`.
pub open spec fn arrow_at(s: Seq<char>, i: int) -> bool {
    0 <= i && i + 2 <= s.len() && s[i] == '-' && s[i + 1] == '>'
}

/// `s` contains a `->` somewhere.
pub open spec fn has_arrow(s: Seq<char>) -> bool {
    exists|i: int| arrow_at(s, i)
}

/// The position of the first `->` of `s`.
pub open spec fn arrow_pos(s: Seq<char>) -> int {
    choose|i: int| arrow_at(s, i) && (forall|j: int| 0 <= j < i ==> !arrow_at(s, j))
}

/// The left-hand text of rule text `s`: everything before the first
/// `->`, trimmed.
pub open spec fn rule_lhs_text(s: Seq<char>) -> Seq<char> {
    trim_spec(s.take(arrow_pos(s)))
}

/// The right-hand text of rule text `s`: everything after the first
/// `->`, trimmed.
pub open spec fn rule_rhs_text(s: Seq<char>) -> Seq<char> {
    trim_spec(s.skip(arrow_pos(s) + 2))
}

impl Rule {
    /// Parses rule text of the form `X->replacement`, trimming both
    /// sides: the left side must trim to exactly one character and the
    /// right side to a non-empty string.
    pub fn from(string_representation: &str) -> (r: Result<Rule, RepresentationError>)
        ensures
            ({
                let s = string_representation@;
                match r {
                    Ok(rule) => has_arrow(s) && rule_lhs_text(s).len() == 1 && rule_rhs_text(
                        s,
                    ).len() > 0 && rule.lhs.symbol == rule_lhs_text(s)[0] && rule.rhs.atom_list@
                        == atoms_of(rule_rhs_text(s)),
                    Err(e) => {
                        if !has_arrow(s) {
                            e@ == "Rule didn't contain a '->'"@
                        } else if rule_lhs_text(s).len() == 0 {
                            e@ == "Atom is empty"@
                        } else if rule_lhs_text(s).len() > 1 {
                            e@ == "Atom contains more that one character"@
                        } else {
                            rule_rhs_text(s).len() == 0 && e@ == "Axiom is empty"@
                        }
                    },
                }
            }),
    {
        let n = string_representation.unicode_len();
        let mut i: usize = 0;
        let mut found = false;
        if n >= 2 {
            while !found && i < n - 1
                invariant
                    n == string_representation@.len(),
                    n >= 2,
                    i <= n,
                    forall|j: int| 0 <= j < i ==> !arrow_at(string_representation@, j),
                    found ==> arrow_at(string_representation@, i as int),
                decreases n - i, (if found { 0int } else { 1int }),
            {
                if string_representation.get_char(i) == '-' && string_representation.get_char(
                    i + 1,
                ) == '>' {
                    found = true;
                } else {
                    i = i + 1;
                }
            }
        }
        if !found {
            proof {
                assert forall|j: int| !arrow_at(string_representation@, j) by {
                    if 0 <= j && j + 2 <= n {
                        assert(j < i);
                    }
                }
            }
            return Err(RepresentationError::new("Rule didn't contain a '->'"));
        }
        proof {
            let s = string_representation@;
            let p = arrow_pos(s);
            assert(arrow_at(s, i as int) && (forall|j: int| 0 <= j < i as int ==> !arrow_at(
                s,
                j,
            )));
            assert(arrow_at(s, p) && (forall|j: int| 0 <= j < p ==> !arrow_at(s, j)));
            if p < i as int {
                assert(!arrow_at(s, p));
            }
            if (i as int) < p {
                assert(!arrow_at(s, i as int));
            }
            assert(p == i as int);
        }
        let lhs_str = string_representation.substring_char(0, i);
        let rhs_str = string_representation.substring_char(i + 2, n);
        proof {
            assert(lhs_str@ =~= string_representation@.take(i as int));
            assert(rhs_str@ =~= string_representation@.skip(i + 2));
        }
        let lhs_trimmed = trim_str(lhs_str);
        let rhs_trimmed = trim_str(rhs_str);
        match Atom::from_string(lhs_trimmed) {
            Err(e) => Err(e),
            Ok(lhs) => match Axiom::from(rhs_trimmed) {
                Err(e) => Err(e),
                Ok(rhs) => Ok(Rule { lhs, rhs }),
            },
        }
    }

    /// The rule's textual form `X->replacement`.
    pub fn as_string(&self) -> (r: String)
        ensures
            r@ == rule_string_spec(*self),
    {
        let mut r = self.lhs.as_string();
        r.append("->");
        let rhs = self.rhs.as_string();
        r.append(rhs.as_str());
        r
    }
}

/// The textual form of a rule: its left symbol, an arrow, and the
/// characters of its replacement.
pub open spec fn rule_string_spec(rule: Rule) -> Seq<char> {
    seq![rule.lhs.symbol] + "->"@ + chars_of(rule.rhs.atom_list@)
}


/// No two rules share a left-hand symbol.
pub open spec fn distinct_lhs(rules: Seq<Rule>) -> bool {
    forall|i: int, j: int|
        0 <= i < j < rules.len() ==> (#[trigger] rules[i]).lhs.symbol != (
        #[trigger] rules[j]).lhs.symbol
}

/// The rules are sorted strictly by left-hand symbol.
pub open spec fn rules_sorted(rules: Seq<Rule>) -> bool {
    forall|i: int, j: int|
        0 <= i < j < rules.len() ==> ((#[trigger] rules[i]).lhs.symbol as u32) < ((
        #[trigger] rules[j]).lhs.symbol as u32)
}

/// Strictly sorted rules have pairwise distinct left-hand symbols.
pub proof fn lemma_sorted_distinct(rules: Seq<Rule>)
    requires
        rules_sorted(rules),
    ensures
        distinct_lhs(rules),
{
}

/// Some rule of `rules` has the left-hand symbol `c`.
pub open spec fn has_rule_for(rules: Seq<Rule>, c: char) -> bool {
    exists|i: int| 0 <= i < rules.len() && (#[trigger] rules[i]).lhs.symbol == c
}

/// The replacement that `rules` give for the symbol `c`, when one of
/// them matches it.
pub open spec fn lookup_rule(rules: Seq<Rule>, c: char) -> Option<Seq<Atom>> {
    if has_rule_for(rules, c) {
        let i = choose|i: int| 0 <= i < rules.len() && (#[trigger] rules[i]).lhs.symbol == c;
        Some(rules[i].rhs.atom_list@)
    } else {
        None
    }
}

/// With distinct left-hand symbols, the rule at any matching index is
/// the one that lookup finds.
proof fn lemma_lookup_some(rules: Seq<Rule>, k: int)
    requires
        distinct_lhs(rules),
        0 <= k < rules.len(),
    ensures
        lookup_rule(rules, rules[k].lhs.symbol) == Some(rules[k].rhs.atom_list@),
{
    let c = rules[k].lhs.symbol;
    assert(has_rule_for(rules, c));
    let i = choose|i: int| 0 <= i < rules.len() && (#[trigger] rules[i]).lhs.symbol == c;
    assert(i == k);
}

/// What one atom becomes under the rules: its replacement when a rule
/// matches, else the atom itself.
pub open spec fn replacement_of(rules: Seq<Rule>, atom: Atom) -> Seq<Atom> {
    match lookup_rule(rules, atom.symbol) {
        Some(rhs) => rhs,
        None => seq![atom],
    }
}

/// One simultaneous rewriting pass of `rules` over `atoms`.
pub open spec fn rewrite_seq(atoms: Seq<Atom>, rules: Seq<Rule>) -> Seq<Atom>
    decreases atoms.len(),
{
    if atoms.len() == 0 {
        Seq::empty()
    } else {
        replacement_of(rules, atoms[0]) + rewrite_seq(atoms.drop_first(), rules)
    }
}

proof fn lemma_rewrite_seq_push(atoms: Seq<Atom>, rules: Seq<Rule>, x: Atom)
    ensures
        rewrite_seq(atoms.push(x), rules) == rewrite_seq(atoms, rules) + replacement_of(rules, x),
    decreases atoms.len(),
{
    if atoms.len() == 0 {
        assert(atoms.push(x)[0] == x);
        assert(atoms.push(x).drop_first() =~= Seq::<Atom>::empty());
        assert(rewrite_seq(Seq::<Atom>::empty(), rules) == Seq::<Atom>::empty());
        assert(atoms =~= Seq::<Atom>::empty());
        assert(rewrite_seq(atoms.push(x), rules) == replacement_of(rules, x) + Seq::<
            Atom,
        >::empty());
        assert(rewrite_seq(atoms.push(x), rules) =~= rewrite_seq(atoms, rules) + replacement_of(
            rules,
            x,
        ));
    } else {
        lemma_rewrite_seq_push(atoms.drop_first(), rules, x);
        assert(atoms.push(x).drop_first() =~= atoms.drop_first().push(x));
        assert(atoms.push(x)[0] == atoms[0]);
        let a0 = replacement_of(rules, atoms[0]);
        let rest = rewrite_seq(atoms.drop_first(), rules);
        assert(rewrite_seq(atoms.push(x), rules) == a0 + rewrite_seq(
            atoms.drop_first().push(x),
            rules,
        ));
        assert(rewrite_seq(atoms, rules) == a0 + rest);
        assert(a0 + (rest + replacement_of(rules, x)) =~= (a0 + rest) + replacement_of(rules, x));
    }
}

proof fn lemma_rewrite_take_step(atoms: Seq<Atom>, rules: Seq<Rule>, i: int)
    requires
        0 <= i < atoms.len(),
    ensures
        rewrite_seq(atoms.take(i + 1), rules) == rewrite_seq(atoms.take(i), rules)
            + replacement_of(rules, atoms[i]),
{
    assert(atoms.take(i + 1) =~= atoms.take(i).push(atoms[i]));
    lemma_rewrite_seq_push(atoms.take(i), rules, atoms[i]);
}

/// What one atom becomes under a single rule.
pub open spec fn replacement_one(lhs: char, rhs: Seq<Atom>, atom: Atom) -> Seq<Atom> {
    if atom.symbol == lhs {
        rhs
    } else {
        seq![atom]
    }
}

/// One rewriting pass of a single rule `lhs -> rhs` over `atoms`.
pub open spec fn apply_rule_seq(atoms: Seq<Atom>, lhs: char, rhs: Seq<Atom>) -> Seq<Atom>
    decreases atoms.len(),
{
    if atoms.len() == 0 {
        Seq::empty()
    } else {
        replacement_one(lhs, rhs, atoms[0]) + apply_rule_seq(atoms.drop_first(), lhs, rhs)
    }
}

proof fn lemma_apply_rule_seq_push(atoms: Seq<Atom>, lhs: char, rhs: Seq<Atom>, x: Atom)
    ensures
        apply_rule_seq(atoms.push(x), lhs, rhs) == apply_rule_seq(atoms, lhs, rhs)
            + replacement_one(lhs, rhs, x),
    decreases atoms.len(),
{
    if atoms.len() == 0 {
        assert(atoms.push(x)[0] == x);
        assert(atoms.push(x).drop_first() =~= Seq::<Atom>::empty());
        assert(apply_rule_seq(Seq::<Atom>::empty(), lhs, rhs) == Seq::<Atom>::empty());
        assert(atoms =~= Seq::<Atom>::empty());
        assert(apply_rule_seq(atoms.push(x), lhs, rhs) == replacement_one(lhs, rhs, x) + Seq::<
            Atom,
        >::empty());
        assert(apply_rule_seq(atoms.push(x), lhs, rhs) =~= apply_rule_seq(atoms, lhs, rhs)
            + replacement_one(lhs, rhs, x));
    } else {
        lemma_apply_rule_seq_push(atoms.drop_first(), lhs, rhs, x);
        assert(atoms.push(x).drop_first() =~= atoms.drop_first().push(x));
        assert(atoms.push(x)[0] == atoms[0]);
        let a0 = replacement_one(lhs, rhs, atoms[0]);
        let rest = apply_rule_seq(atoms.drop_first(), lhs, rhs);
        assert(apply_rule_seq(atoms.push(x), lhs, rhs) == a0 + apply_rule_seq(
            atoms.drop_first().push(x),
            lhs,
            rhs,
        ));
        assert(apply_rule_seq(atoms, lhs, rhs) == a0 + rest);
        assert(a0 + (rest + replacement_one(lhs, rhs, x)) =~= (a0 + rest) + replacement_one(
            lhs,
            rhs,
            x,
        ));
    }
}

proof fn lemma_apply_rule_take_step(atoms: Seq<Atom>, lhs: char, rhs: Seq<Atom>, i: int)
    requires
        0 <= i < atoms.len(),
    ensures
        apply_rule_seq(atoms.take(i + 1), lhs, rhs) == apply_rule_seq(atoms.take(i), lhs, rhs)
            + replacement_one(lhs, rhs, atoms[i]),
{
    assert(atoms.take(i + 1) =~= atoms.take(i).push(atoms[i]));
    lemma_apply_rule_seq_push(atoms.take(i), lhs, rhs, atoms[i]);
}

/// The total length of one rewriting pass: each atom contributes the
/// length of its matched replacement, or 1 when no rule matches.
pub open spec fn rewritten_len(atoms: Seq<Atom>, rules: Seq<Rule>) -> nat
    decreases atoms.len(),
{
    if atoms.len() == 0 {
        0
    } else {
        replacement_of(rules, atoms[0]).len() + rewritten_len(atoms.drop_first(), rules)
    }
}

/// Law: the length of one rewriting pass equals the sum, over the
/// original atoms, of the replacement length where a rule matches and 1
/// where none does.
pub proof fn lemma_rewrite_seq_len(atoms: Seq<Atom>, rules: Seq<Rule>)
    ensures
        rewrite_seq(atoms, rules).len() == rewritten_len(atoms, rules),
    decreases atoms.len(),
{
    if atoms.len() > 0 {
        lemma_rewrite_seq_len(atoms.drop_first(), rules);
    }
}

/// Rule `j` repeats a left-hand symbol seen earlier in the list.
pub open spec fn dup_at(rules: Seq<Rule>, j: int) -> bool {
    exists|i: int| 0 <= i < j && (#[trigger] rules[i]).lhs.symbol == rules[j].lhs.symbol
}

/// `j` is the first rule that repeats a left-hand symbol.
pub open spec fn is_first_dup(rules: Seq<Rule>, j: int) -> bool {
    &&& 0 <= j < rules.len()
    &&& dup_at(rules, j)
    &&& forall|j2: int| 0 <= j2 < j ==> !dup_at(rules, j2)
}

/// The message reported for a repeated left-hand symbol `c`.
pub open spec fn dup_rule_message(c: char) -> Seq<char> {
    "RuleSet contains two Rules with the lhs-Atom '"@ + seq![c] + "'"@
}

/// A prefix in which no rule repeats an earlier symbol has pairwise
/// distinct symbols.
proof fn lemma_no_dup_prefix_distinct(rules: Seq<Rule>, m: int)
    requires
        0 <= m <= rules.len(),
        forall|j: int| 0 <= j < m ==> !dup_at(rules, j),
    ensures
        distinct_lhs(rules.take(m)),
{
    let t = rules.take(m);
    assert forall|i: int, j: int|
        0 <= i < j < t.len() implies (#[trigger] t[i]).lhs.symbol != (
    #[trigger] t[j]).lhs.symbol by {
        assert(t[i] == rules[i]);
        assert(t[j] == rules[j]);
        if rules[i].lhs.symbol == rules[j].lhs.symbol {
            assert(dup_at(rules, j));
        }
    }
}

/// Inserting a rule with a fresh symbol changes lookup only at that
/// symbol.
proof fn lemma_insert_lookup(rules: Seq<Rule>, p: int, rule: Rule, c: char)
    requires
        0 <= p <= rules.len(),
        distinct_lhs(rules),
        distinct_lhs(rules.insert(p, rule)),
    ensures
        lookup_rule(rules.insert(p, rule), c) == (if c == rule.lhs.symbol {
            Some(rule.rhs.atom_list@)
        } else {
            lookup_rule(rules, c)
        }),
{
    let new = rules.insert(p, rule);
    rules.insert_ensures(p, rule);
    if c == rule.lhs.symbol {
        assert(new[p] == rule);
        lemma_lookup_some(new, p);
    } else {
        if has_rule_for(rules, c) {
            let i = choose|i: int| 0 <= i < rules.len() && (#[trigger] rules[i]).lhs.symbol == c;
            let k: int = if i < p {
                i
            } else {
                i + 1
            };
            assert(new[k] == rules[i]);
            lemma_lookup_some(rules, i);
            lemma_lookup_some(new, k);
        } else {
            assert forall|j: int| 0 <= j < new.len() implies (#[trigger] new[j]).lhs.symbol
                != c by {
                if j < p {
                    assert(new[j] == rules[j]);
                    assert(rules[j].lhs.symbol != c);
                } else if j > p {
                    assert(new[j] == rules[j - 1]);
                    assert(rules[j - 1].lhs.symbol != c);
                }
            }
            assert(!has_rule_for(new, c));
        }
    }
}

/// The complete set of productions applied together in one rewriting
/// pass: at most one rule per left-hand symbol, held sorted by it.
pub struct RuleSet {
    pub rules: Vec<Rule>,
}

impl RuleSet {
    /// Well-formedness: the rules are strictly sorted by left-hand
    /// symbol, so no symbol has two rules.
    pub open spec fn wf(&self) -> bool {
        rules_sorted(self.rules@)
    }

    /// Builds a rule set from a list of rules; fails, naming the
    /// symbol, when two rules share a left-hand symbol.
    pub fn from(rule_list: Vec<Rule>) -> (r: Result<RuleSet, RepresentationError>)
        ensures
            match r {
                Ok(rs) => distinct_lhs(rule_list@) && rs.wf() && (forall|c: char|
                    lookup_rule(rs.rules@, c) == lookup_rule(rule_list@, c)),
                Err(e) => !distinct_lhs(rule_list@) && (exists|j: int|
                    #[trigger] is_first_dup(rule_list@, j) && e@ == dup_rule_message(
                        rule_list@[j].lhs.symbol,
                    )),
            },
    {
        let ghost input = rule_list@;
        let mut remaining = rule_list;
        let input_len = remaining.len();
        let mut rules: Vec<Rule> = Vec::new();
        let mut k: usize = 0;
        proof {
            assert(input.len() == input_len);
            assert(input.take(0) =~= Seq::<Rule>::empty());
        }
        while remaining.len() > 0
            invariant
                input == rule_list@,
                input.len() <= usize::MAX,
                k + remaining.len() == input.len(),
                remaining@ == input.skip(k as int),
                rules_sorted(rules@),
                forall|c: char| lookup_rule(rules@, c) == lookup_rule(input.take(k as int), c),
                forall|j2: int| 0 <= j2 < k ==> !dup_at(input, j2),
            decreases remaining.len(),
        {
            let rule = remaining.remove(0);
            proof {
                assert(input.skip(k as int)[0] == input[k as int]);
                assert(input.skip(k as int).remove(0) =~= input.skip(k as int + 1));
            }
            let n_rules = rules.len();
            let mut p: usize = 0;
            while p < n_rules && (rules[p].lhs.symbol as u32) < (rule.lhs.symbol as u32)
                invariant
                    n_rules == rules@.len(),
                    p <= n_rules,
                    forall|q: int|
                        0 <= q < p ==> ((#[trigger] rules@[q]).lhs.symbol as u32) < (
                        rule.lhs.symbol as u32),
                decreases n_rules - p,
            {
                p = p + 1;
            }
            if p < n_rules && rules[p].lhs.symbol == rule.lhs.symbol {
                proof {
                    assert(has_rule_for(rules@, rule.lhs.symbol));
                    assert(lookup_rule(rules@, rule.lhs.symbol) is Some);
                    assert(lookup_rule(input.take(k as int), rule.lhs.symbol) is Some);
                    assert(has_rule_for(input.take(k as int), rule.lhs.symbol));
                    let i = choose|i: int|
                        0 <= i < input.take(k as int).len() && (#[trigger] input.take(
                            k as int,
                        )[i]).lhs.symbol == rule.lhs.symbol;
                    assert(input.take(k as int)[i] == input[i]);
                    assert(input[i].lhs.symbol == input[k as int].lhs.symbol);
                    assert(dup_at(input, k as int));
                    assert(is_first_dup(input, k as int));
                    assert(!distinct_lhs(input));
                }
                let mut msg = String::from_str("RuleSet contains two Rules with the lhs-Atom '");
                push_char(&mut msg, rule.lhs.symbol);
                msg.append("'");
                proof {
                    assert(msg@ =~= dup_rule_message(input[k as int].lhs.symbol));
                    assert(!distinct_lhs(input)) by {
                        let i2 = choose|i2: int|
                            0 <= i2 < k as int && (#[trigger] input[i2]).lhs.symbol
                                == input[k as int].lhs.symbol;
                        assert(0 <= i2 < k as int && input[i2].lhs.symbol
                            == input[k as int].lhs.symbol);
                    }
                    assert(is_first_dup(input, k as int) && msg@ == dup_rule_message(
                        input[k as int].lhs.symbol,
                    ));
                    assert(!distinct_lhs(rule_list@));
                    assert(exists|j: int|
                        #[trigger] is_first_dup(rule_list@, j) && msg@ == dup_rule_message(
                            rule_list@[j].lhs.symbol,
                        ));
                }
                return Err(RepresentationError::new(msg.as_str()));
            }
            proof {
                assert forall|q: int| 0 <= q < rules@.len() implies (
                #[trigger] rules@[q]).lhs.symbol != rule.lhs.symbol by {
                    if q < p {
                        assert((rules@[q].lhs.symbol as u32) < (rule.lhs.symbol as u32));
                    } else if q > p {
                        assert(((rules@[p as int]).lhs.symbol as u32) < ((
                        rules@[q]).lhs.symbol as u32));
                    }
                }
                assert(!has_rule_for(rules@, rule.lhs.symbol));
                assert(lookup_rule(input.take(k as int), rule.lhs.symbol) is None);
                assert forall|i: int| 0 <= i < k implies (#[trigger] input[i]).lhs.symbol
                    != input[k as int].lhs.symbol by {
                    if input[i].lhs.symbol == input[k as int].lhs.symbol {
                        assert(input.take(k as int)[i] == input[i]);
                        assert(has_rule_for(input.take(k as int), input[k as int].lhs.symbol));
                    }
                }
                assert(!dup_at(input, k as int));
            }
            let ghost old_rules = rules@;
            rules.insert(p, rule);
            proof {
                old_rules.insert_ensures(p as int, rule);
                assert forall|i: int, j: int|
                    0 <= i < j < rules@.len() implies ((#[trigger] rules@[i]).lhs.symbol as u32)
                    < ((#[trigger] rules@[j]).lhs.symbol as u32) by {
                    let pi = p as int;
                    if i < pi {
                        assert(rules@[i] == old_rules[i]);
                    } else if i == pi {
                        assert(rules@[i] == rule);
                    } else {
                        assert(rules@[i] == old_rules[i - 1]);
                    }
                    if j < pi {
                        assert(rules@[j] == old_rules[j]);
                    } else if j == pi {
                        assert(rules@[j] == rule);
                    } else {
                        assert(rules@[j] == old_rules[j - 1]);
                    }
                }
                lemma_sorted_distinct(old_rules);
                lemma_sorted_distinct(rules@);
                lemma_no_dup_prefix_distinct(input, k as int);
                lemma_no_dup_prefix_distinct(input, k as int + 1);
                assert(input.take(k as int).insert(k as int, input[k as int]) =~= input.take(
                    k as int + 1,
                ));
                assert forall|c: char| lookup_rule(rules@, c) == lookup_rule(
                    input.take(k as int + 1),
                    c,
                ) by {
                    lemma_insert_lookup(old_rules, p as int, rule, c);
                    lemma_insert_lookup(input.take(k as int), k as int, input[k as int], c);
                }
            }
            k = k + 1;
        }
        proof {
            assert(input.take(k as int) =~= input);
            assert forall|i: int, j: int|
                0 <= i < j < input.len() implies (#[trigger] input[i]).lhs.symbol != (
            #[trigger] input[j]).lhs.symbol by {
                if input[i].lhs.symbol == input[j].lhs.symbol {
                    assert(dup_at(input, j));
                }
            }
        }
        Ok(RuleSet { rules })
    }

    /// Looks up the replacement for symbol `c`, if a rule gives one.
    fn find(&self, c: char) -> (r: Option<&Axiom>)
        requires
            self.wf(),
        ensures
            match r {
                Some(ax) => lookup_rule(self.rules@, c) == Some(ax.atom_list@),
                None => lookup_rule(self.rules@, c) is None,
            },
    {
        let n = self.rules.len();
        let mut i: usize = 0;
        while i < n
            invariant
                n == self.rules@.len(),
                i <= n,
                self.wf(),
                forall|q: int| 0 <= q < i ==> (#[trigger] self.rules@[q]).lhs.symbol != c,
            decreases n - i,
        {
            if self.rules[i].lhs.symbol == c {
                proof {
                    lemma_sorted_distinct(self.rules@);
                    lemma_lookup_some(self.rules@, i as int);
                }
                return Some(&self.rules[i].rhs);
            }
            i = i + 1;
        }
        proof {
            assert(!has_rule_for(self.rules@, c));
        }
        None
    }

    /// The textual form of the rule set: its rules in symbol order,
    /// separated by commas.
    pub fn as_string(&self) -> (r: String)
        ensures
            r@ == ruleset_string_spec(self.rules@),
    {
        let mut r = String::new();
        let n = self.rules.len();
        let mut i: usize = 0;
        proof {
            assert(self.rules@.take(0) =~= Seq::<Rule>::empty());
        }
        while i < n
            invariant
                n == self.rules@.len(),
                i <= n,
                r@ == ruleset_string_spec(self.rules@.take(i as int)),
            decreases n - i,
        {
            if i > 0 {
                r.append(", ");
            }
            let rs = self.rules[i].as_string();
            r.append(rs.as_str());
            proof {
                let t = self.rules@.take(i as int + 1);
                assert(t.drop_last() =~= self.rules@.take(i as int));
                assert(t.last() == self.rules@[i as int]);
            }
            i = i + 1;
        }
        proof {
            assert(self.rules@.take(n as int) =~= self.rules@);
        }
        r
    }
}

/// The textual form of a rule list: each rule's text, separated by
/// commas, in list order.
pub open spec fn ruleset_string_spec(rules: Seq<Rule>) -> Seq<char>
    decreases rules.len(),
{
    if rules.len() == 0 {
        Seq::empty()
    } else if rules.len() == 1 {
        rule_string_spec(rules[0])
    } else {
        ruleset_string_spec(rules.drop_last()) + ", "@ + rule_string_spec(rules.last())
    }
}

impl Axiom {
    /// Rewrites every atom that matches the rule's left-hand symbol,
    /// splicing in the rule's replacement, in one simultaneous pass.
    pub fn apply(&mut self, rule: &Rule)
        ensures
            final(self).atom_list@ == apply_rule_seq(
                old(self).atom_list@,
                rule.lhs.symbol,
                rule.rhs.atom_list@,
            ),
    {
        let ghost orig = self.atom_list@;
        let mut new_atom_list: Vec<Atom> = Vec::new();
        let n = self.atom_list.len();
        let mut i: usize = 0;
        proof {
            assert(orig.take(0) =~= Seq::<Atom>::empty());
        }
        while i < n
            invariant
                self.atom_list@ == orig,
                n == orig.len(),
                i <= n,
                new_atom_list@ == apply_rule_seq(
                    orig.take(i as int),
                    rule.lhs.symbol,
                    rule.rhs.atom_list@,
                ),
            decreases n - i,
        {
            let ghost prev = new_atom_list@;
            if rule.lhs.symbol == self.atom_list[i].symbol {
                let m = rule.rhs.atom_list.len();
                let mut j: usize = 0;
                while j < m
                    invariant
                        m == rule.rhs.atom_list@.len(),
                        j <= m,
                        new_atom_list@ == prev + rule.rhs.atom_list@.take(j as int),
                    decreases m - j,
                {
                    new_atom_list.push(rule.rhs.atom_list[j]);
                    proof {
                        assert(prev + rule.rhs.atom_list@.take(j + 1) =~= (prev
                            + rule.rhs.atom_list@.take(j as int)).push(
                            rule.rhs.atom_list@[j as int],
                        ));
                    }
                    j = j + 1;
                }
                proof {
                    assert(prev + rule.rhs.atom_list@.take(m as int) =~= prev
                        + rule.rhs.atom_list@);
                }
            } else {
                new_atom_list.push(self.atom_list[i]);
                proof {
                    assert(new_atom_list@ =~= prev + seq![orig[i as int]]);
                }
            }
            proof {
                lemma_apply_rule_take_step(orig, rule.lhs.symbol, rule.rhs.atom_list@, i as int);
            }
            i = i + 1;
        }
        proof {
            assert(orig.take(n as int) =~= orig);
        }
        self.atom_list = new_atom_list;
    }

    /// Rewrites every atom in one simultaneous pass: each atom whose
    /// symbol has a rule is replaced by that rule's right-hand side,
    /// and every other atom is kept.  All substitutions are decided by
    /// the sequence as it was before the pass.
    pub fn apply_ruleset(&mut self, ruleset: &RuleSet)
        requires
            ruleset.wf(),
        ensures
            final(self).atom_list@ == rewrite_seq(old(self).atom_list@, ruleset.rules@),
    {
        let ghost orig = self.atom_list@;
        let mut new_atom_list: Vec<Atom> = Vec::new();
        let n = self.atom_list.len();
        let mut i: usize = 0;
        proof {
            assert(orig.take(0) =~= Seq::<Atom>::empty());
        }
        while i < n
            invariant
                self.atom_list@ == orig,
                ruleset.wf(),
                n == orig.len(),
                i <= n,
                new_atom_list@ == rewrite_seq(orig.take(i as int), ruleset.rules@),
            decreases n - i,
        {
            let ghost prev = new_atom_list@;
            match ruleset.find(self.atom_list[i].symbol) {
                Some(replacement) => {
                    let m = replacement.atom_list.len();
                    let mut j: usize = 0;
                    while j < m
                        invariant
                            replacement.atom_list@ == lookup_rule(
                                ruleset.rules@,
                                orig[i as int].symbol,
                            )->Some_0,
                            lookup_rule(ruleset.rules@, orig[i as int].symbol) is Some,
                            m == replacement.atom_list@.len(),
                            j <= m,
                            new_atom_list@ == prev + replacement.atom_list@.take(j as int),
                        decreases m - j,
                    {
                        new_atom_list.push(replacement.atom_list[j]);
                        proof {
                            assert(prev + replacement.atom_list@.take(j + 1) =~= (prev
                                + replacement.atom_list@.take(j as int)).push(
                                replacement.atom_list@[j as int],
                            ));
                        }
                        j = j + 1;
                    }
                    proof {
                        assert(prev + replacement.atom_list@.take(m as int) =~= prev
                            + replacement.atom_list@);
                    }
                },
                None => {
                    new_atom_list.push(self.atom_list[i]);
                    proof {
                        assert(new_atom_list@ =~= prev + seq![orig[i as int]]);
                    }
                },
            }
            proof {
                lemma_rewrite_take_step(orig, ruleset.rules@, i as int);
            }
            i = i + 1;
        }
        proof {
            assert(orig.take(n as int) =~= orig);
        }
        self.atom_list = new_atom_list;
    }
}

} // verus!
