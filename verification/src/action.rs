//! The action layer: how each atom of an expanded grammar string
//! becomes a musical element.
//!
//! A symbol-to-action table drives a small state machine over the
//! atoms: an atom may do nothing, push or pop the build state, or run
//! an [`Action`] that produces the next musical element.  State is
//! threaded explicitly: each action takes the state and hands the
//! updated state back.

use vstd::prelude::*;
use vstd::string::StringExecFns;
use crate::key::Key;
use crate::key::spec_scale_pitches;
use crate::l_system::Atom;
use crate::l_system::Axiom;
use crate::musical_notation::Duration;
use crate::musical_notation::MusicalElement;
use crate::musical_notation::Volume;
use crate::temperament::Temperament;
use crate::text::push_char;
use crate::voice::Voice;

verus! {

/// The kinds of failure that can abort a voice build.
#[derive(Copy, Clone, Debug, PartialEq, Eq, Structural)]
pub enum ErrorKind {
    UndefinedAtomType,
    PopOnEmptyStack,
    GenerationError,
}

/// The spec-level content of an [`ActionError`]: its kind and inner
/// message.
pub struct ActionErrorView {
    pub kind: ErrorKind,
    pub message: Seq<char>,
}

/// The stock message for each error kind.
pub open spec fn spec_kind_message(kind: ErrorKind) -> Seq<char> {
    match kind {
        ErrorKind::PopOnEmptyStack => "Tried to pop an empty state stack"@,
        ErrorKind::UndefinedAtomType => "The type of an atom is left undefined"@,
        ErrorKind::GenerationError => "General error while generating a MusicalElement"@,
    }
}

/// The full text that [`ActionError::message`] renders for an inner
/// message `msg`.
pub open spec fn action_error_text(msg: Seq<char>) -> Seq<char> {
    "There was an Error while interpreting the Axiom: "@ + msg + "."@
}

/// Error raised while a voice is built from an expanded string.
#[derive(Debug)]
pub struct ActionError {
    kind: ErrorKind,
    message: String,
}

impl View for ActionError {
    type V = ActionErrorView;

    closed spec fn view(&self) -> ActionErrorView {
        ActionErrorView { kind: self.kind, message: self.message@ }
    }
}

impl ActionError {
    /// Wraps the message of an error met while generating one musical
    /// element.
    pub fn from_generation_error(message: String) -> (e: ActionError)
        ensures
            e@.kind == ErrorKind::GenerationError,
            e@.message == message@,
    {
        ActionError { kind: ErrorKind::GenerationError, message }
    }

    /// An error of the given kind with its stock message.
    pub fn from_error_kind(kind: ErrorKind) -> (e: ActionError)
        ensures
            e@.kind == kind,
            e@.message == spec_kind_message(kind),
    {
        let message = match kind {
            ErrorKind::PopOnEmptyStack => String::from_str("Tried to pop an empty state stack"),
            ErrorKind::UndefinedAtomType => String::from_str(
                "The type of an atom is left undefined",
            ),
            ErrorKind::GenerationError => String::from_str(
                "General error while generating a MusicalElement",
            ),
        };
        ActionError { kind, message }
    }

    /// Which kind of failure this is.
    pub fn kind(&self) -> (k: ErrorKind)
        ensures
            k == self@.kind,
    {
        self.kind
    }

    /// Renders the error as one sentence naming the inner message.
    pub fn message(&self) -> (r: String)
        ensures
            r@ == action_error_text(self@.message),
    {
        let mut r = String::from_str("There was an Error while interpreting the Axiom: ");
        r.append(self.message.as_str());
        r.append(".");
        r
    }
}

/// The state threaded through one voice build.  A fresh neutral state
/// is made per build; atoms may push or pop it, and actions may read
/// and replace it.
pub trait ActionState: Sized {
    /// The state a build starts from.
    spec fn spec_neutral() -> Self;

    /// What pushing does to the state.
    spec fn spec_push(self) -> Self;

    /// What popping does to the state, when it can be popped.
    spec fn spec_pop(self) -> Option<Self>;

    fn get_neutral_state() -> (r: Self)
        ensures
            r == Self::spec_neutral(),
    ;

    fn push(&mut self)
        ensures
            *final(self) == old(self).spec_push(),
    ;

    fn pop(&mut self) -> (r: Result<(), ActionError>)
        ensures
            (match (*old(self)).spec_pop() {
                Some(s) => r is Ok && *final(self) == s,
                None => r is Err && *final(self) == *old(self) && (match r {
                    Err(e) => e@.kind == ErrorKind::PopOnEmptyStack,
                    Ok(_) => true,
                }),
            }),
    ;
}

/// An action state that does nothing: pushing keeps it, popping always
/// succeeds and keeps it.  Used for one-to-one symbol mappings.
pub struct NeutralActionState {}

impl ActionState for NeutralActionState {
    open spec fn spec_neutral() -> Self {
        NeutralActionState {  }
    }

    open spec fn spec_push(self) -> Self {
        self
    }

    open spec fn spec_pop(self) -> Option<Self> {
        Some(self)
    }

    fn get_neutral_state() -> NeutralActionState {
        NeutralActionState {  }
    }

    fn push(&mut self) {
    }

    fn pop(&mut self) -> (r: Result<(), ActionError>) {
        Ok(())
    }
}

/// An action makes a musical element from an atom's symbol and may
/// replace the build state.  `spec_gen` says exactly which element and
/// state, or which error, each symbol yields.
pub trait Action<S: ActionState>: Sized {
    /// What the action needs of itself before it can run.
    spec fn gen_pre(&self) -> bool;

    /// The element and next state, or the error, for `symbol` in
    /// `state`.
    spec fn spec_gen(&self, symbol: char, state: S) -> Result<(MusicalElement, S), ActionErrorView>;

    fn gen_next_musical_element(&self, symbol: char, state: &mut S) -> (r: Result<
        MusicalElement,
        ActionError,
    >)
        requires
            self.gen_pre(),
        ensures
            (match self.spec_gen(symbol, *old(state)) {
                Ok(p) => r is Ok && (match r {
                    Ok(m) => m == p.0,
                    Err(_) => true,
                }) && *final(state) == p.1,
                Err(v) => r is Err && (match r {
                    Err(e) => e@ == v,
                    Ok(_) => true,
                }) && *final(state) == *old(state),
            }),
    ;
}

/// What an atom does when the build reaches it.
pub enum AtomType<A> {
    NoAction,
    HasAction { action: A },
    PushStack,
    PopStack,
}

/// Whether an atom type's action, if it holds one, is ready to run.
pub open spec fn atom_type_pre<S: ActionState, A: Action<S>>(at: AtomType<A>) -> bool {
    match at {
        AtomType::HasAction { action } => action.gen_pre(),
        _ => true,
    }
}

/// The atom type stored for symbol `c`, if any.
pub open spec fn spec_table_get<A>(entries: Seq<(Atom, AtomType<A>)>, c: char) -> Option<
    AtomType<A>,
> {
    if exists|i: int| 0 <= i < entries.len() && (#[trigger] entries[i]).0.symbol == c {
        let i = choose|i: int| 0 <= i < entries.len() && (#[trigger] entries[i]).0.symbol == c;
        Some(entries[i].1)
    } else {
        None
    }
}

/// No two entries map the same symbol.
pub open spec fn table_distinct<A>(entries: Seq<(Atom, AtomType<A>)>) -> bool {
    forall|i: int, j: int|
        0 <= i < j < entries.len() ==> (#[trigger] entries[i]).0.symbol != (
        #[trigger] entries[j]).0.symbol
}

/// With distinct symbols, the entry at any matching index is the one
/// the table lookup finds.
proof fn lemma_table_get_at<A>(entries: Seq<(Atom, AtomType<A>)>, k: int)
    requires
        table_distinct(entries),
        0 <= k < entries.len(),
    ensures
        spec_table_get(entries, entries[k].0.symbol) == Some(entries[k].1),
{
    let c = entries[k].0.symbol;
    assert(exists|i: int| 0 <= i < entries.len() && (#[trigger] entries[i]).0.symbol == c);
    let i = choose|i: int| 0 <= i < entries.len() && (#[trigger] entries[i]).0.symbol == c;
    assert(i == k);
}

/// The table mapping each atom to what it does: at most one entry per
/// symbol.
pub struct AtomTypeMap<A> {
    pub entries: Vec<(Atom, AtomType<A>)>,
}

impl<A> AtomTypeMap<A> {
    /// Well-formedness: no symbol has two entries.
    pub open spec fn wf(&self) -> bool {
        table_distinct(self.entries@)
    }

    /// An empty table.
    pub fn new() -> (r: AtomTypeMap<A>)
        ensures
            r.wf(),
            forall|c: char| spec_table_get(r.entries@, c) is None,
    {
        AtomTypeMap { entries: Vec::new() }
    }

    /// Maps `atom` to `atom_type`, replacing any earlier entry for the
    /// same symbol.
    pub fn insert(&mut self, atom: Atom, atom_type: AtomType<A>)
        requires
            old(self).wf(),
        ensures
            final(self).wf(),
            forall|c: char|
                #[trigger] spec_table_get(final(self).entries@, c) == (if c == atom.symbol {
                    Some(atom_type)
                } else {
                    spec_table_get(old(self).entries@, c)
                }),
    {
        let ghost orig = self.entries@;
        let n = self.entries.len();
        let mut i: usize = 0;
        while i < n
            invariant
                orig == old(self).entries@,
                self.entries@ == orig,
                n == orig.len(),
                i <= n,
                table_distinct(orig),
                forall|q: int| 0 <= q < i ==> (#[trigger] orig[q]).0.symbol != atom.symbol,
            decreases n - i,
        {
            if self.entries[i].0.symbol == atom.symbol {
                self.entries.remove(i);
                self.entries.insert(i, (atom, atom_type));
                proof {
                    let updated = orig.remove(i as int).insert(i as int, (atom, atom_type));
                    assert(updated =~= orig.update(i as int, (atom, atom_type)));
                    assert(self.entries@ == orig.update(i as int, (atom, atom_type)));
                    assert forall|ii: int, jj: int|
                        0 <= ii < jj < self.entries@.len() implies (
                    #[trigger] self.entries@[ii]).0.symbol != (
                    #[trigger] self.entries@[jj]).0.symbol by {
                        assert(orig[ii].0.symbol != orig[jj].0.symbol);
                    }
                    assert forall|c: char|
                        #[trigger] spec_table_get(self.entries@, c) == (if c == atom.symbol {
                            Some(atom_type)
                        } else {
                            spec_table_get(orig, c)
                        }) by {
                        if c == atom.symbol {
                            lemma_table_get_at(self.entries@, i as int);
                        } else {
                            if exists|q: int|
                                0 <= q < orig.len() && (#[trigger] orig[q]).0.symbol == c {
                                let q = choose|q: int|
                                    0 <= q < orig.len() && (#[trigger] orig[q]).0.symbol == c;
                                lemma_table_get_at(orig, q);
                                assert(self.entries@[q] == orig[q]);
                                lemma_table_get_at(self.entries@, q);
                            } else {
                                assert forall|q: int|
                                    0 <= q < self.entries@.len() implies (
                                #[trigger] self.entries@[q]).0.symbol != c by {
                                    if q != i {
                                        assert(self.entries@[q] == orig[q]);
                                    }
                                }
                            }
                        }
                    }
                }
                return ;
            }
            i = i + 1;
        }
        let ghost pre = self.entries@;
        self.entries.push((atom, atom_type));
        proof {
            assert(self.entries@ =~= pre.insert(pre.len() as int, (atom, atom_type)));
            assert forall|ii: int, jj: int|
                0 <= ii < jj < self.entries@.len() implies (#[trigger] self.entries@[ii]).0.symbol
                != (#[trigger] self.entries@[jj]).0.symbol by {
                if jj < pre.len() {
                    assert(self.entries@[ii] == pre[ii] && self.entries@[jj] == pre[jj]);
                } else {
                    assert(self.entries@[ii] == pre[ii]);
                    assert(self.entries@[jj].0.symbol == atom.symbol);
                }
            }
            assert forall|c: char|
                #[trigger] spec_table_get(self.entries@, c) == (if c == atom.symbol {
                    Some(atom_type)
                } else {
                    spec_table_get(pre, c)
                }) by {
                if c == atom.symbol {
                    lemma_table_get_at(self.entries@, pre.len() as int);
                } else {
                    if exists|q: int| 0 <= q < pre.len() && (#[trigger] pre[q]).0.symbol == c {
                        let q = choose|q: int|
                            0 <= q < pre.len() && (#[trigger] pre[q]).0.symbol == c;
                        lemma_table_get_at(pre, q);
                        assert(self.entries@[q] == pre[q]);
                        lemma_table_get_at(self.entries@, q);
                    } else {
                        assert forall|q: int|
                            0 <= q < self.entries@.len() implies (
                        #[trigger] self.entries@[q]).0.symbol != c by {
                            if q < pre.len() {
                                assert(self.entries@[q] == pre[q]);
                            }
                        }
                    }
                }
            }
        }
    }

    /// The atom type stored for `atom`, if any.
    pub fn get(&self, atom: &Atom) -> (r: Option<&AtomType<A>>)
        requires
            self.wf(),
        ensures
            (match r {
                Some(at) => spec_table_get(self.entries@, atom.symbol) == Some(*at),
                None => spec_table_get(self.entries@, atom.symbol) is None,
            }),
    {
        let n = self.entries.len();
        let mut i: usize = 0;
        while i < n
            invariant
                n == self.entries@.len(),
                i <= n,
                self.wf(),
                forall|q: int| 0 <= q < i ==> (#[trigger] self.entries@[q]).0.symbol != atom.symbol,
            decreases n - i,
        {
            if self.entries[i].0.symbol == atom.symbol {
                proof {
                    lemma_table_get_at(self.entries@, i as int);
                }
                return Some(&self.entries[i].1);
            }
            i = i + 1;
        }
        None
    }
}

/// Why a voice build failed, at the spec level.
pub enum BuildFailure {
    UndefinedAtom,
    PopOnEmpty,
    Generation(ActionErrorView),
}

/// What building a voice from `atoms` in `state` yields: the musical
/// elements the actions produce, in order, or the first failure.  An
/// atom whose symbol has no table entry fails the build immediately;
/// there is no silent default.
pub open spec fn spec_build<S: ActionState, A: Action<S>>(
    atoms: Seq<Atom>,
    entries: Seq<(Atom, AtomType<A>)>,
    state: S,
) -> Result<Seq<MusicalElement>, BuildFailure>
    decreases atoms.len(),
{
    if atoms.len() == 0 {
        Ok(Seq::empty())
    } else {
        match spec_table_get(entries, atoms[0].symbol) {
            None => Err(BuildFailure::UndefinedAtom),
            Some(at) => match at {
                AtomType::NoAction => spec_build(atoms.drop_first(), entries, state),
                AtomType::PushStack => spec_build(atoms.drop_first(), entries, state.spec_push()),
                AtomType::PopStack => match state.spec_pop() {
                    Some(s2) => spec_build(atoms.drop_first(), entries, s2),
                    None => Err(BuildFailure::PopOnEmpty),
                },
                AtomType::HasAction { action } => match action.spec_gen(atoms[0].symbol, state) {
                    Ok(p) => match spec_build(atoms.drop_first(), entries, p.1) {
                        Ok(rest) => Ok(seq![p.0] + rest),
                        Err(e) => Err(e),
                    },
                    Err(v) => Err(BuildFailure::Generation(v)),
                },
            },
        }
    }
}

/// Law: a build in which some atom has no table entry never succeeds,
/// whatever the table says of the other atoms.
pub proof fn lemma_unmapped_atom_fails<S: ActionState, A: Action<S>>(
    atoms: Seq<Atom>,
    entries: Seq<(Atom, AtomType<A>)>,
    state: S,
    k: int,
)
    requires
        0 <= k < atoms.len(),
        spec_table_get(entries, atoms[k].symbol) is None,
    ensures
        spec_build(atoms, entries, state) is Err,
    decreases atoms.len(),
{
    if k == 0 {
    } else {
        match spec_table_get(entries, atoms[0].symbol) {
            None => {},
            Some(at) => {
                assert(atoms.drop_first()[k - 1] == atoms[k]);
                match at {
                    AtomType::NoAction => {
                        lemma_unmapped_atom_fails(atoms.drop_first(), entries, state, k - 1);
                    },
                    AtomType::PushStack => {
                        lemma_unmapped_atom_fails(
                            atoms.drop_first(),
                            entries,
                            state.spec_push(),
                            k - 1,
                        );
                    },
                    AtomType::PopStack => {
                        match state.spec_pop() {
                            Some(s2) => {
                                lemma_unmapped_atom_fails(atoms.drop_first(), entries, s2, k - 1);
                            },
                            None => {},
                        }
                    },
                    AtomType::HasAction { action } => {
                        match action.spec_gen(atoms[0].symbol, state) {
                            Ok(p) => {
                                lemma_unmapped_atom_fails(atoms.drop_first(), entries, p.1, k - 1);
                            },
                            Err(_) => {},
                        }
                    },
                }
            },
        }
    }
}

impl Voice {
    /// Builds a voice by walking the expanded string atom by atom: an
    /// atom may do nothing, push or pop the fresh build state, or run
    /// its action and append the produced element.  The build aborts
    /// on the first failure: an atom without a table entry, a pop of
    /// an unpoppable state, or an action error.
    pub fn from<S: ActionState, A: Action<S>>(ax: &Axiom, atom_types: &AtomTypeMap<A>) -> (r:
        Result<Voice, ActionError>)
        requires
            atom_types.wf(),
            forall|i: int|
                0 <= i < atom_types.entries@.len() ==> atom_type_pre::<S, A>(
                    (#[trigger] atom_types.entries@[i]).1,
                ),
        ensures
            (match spec_build::<S, A>(
                ax.atom_list@,
                atom_types.entries@,
                S::spec_neutral(),
            ) {
                Ok(elems) => r is Ok && (match r {
                    Ok(v) => v@ == elems,
                    Err(_) => true,
                }),
                Err(f) => r is Err && (match r {
                    Err(e) => match f {
                        BuildFailure::UndefinedAtom => e@.kind == ErrorKind::UndefinedAtomType
                            && e@.message == spec_kind_message(ErrorKind::UndefinedAtomType),
                        BuildFailure::PopOnEmpty => e@.kind == ErrorKind::PopOnEmptyStack,
                        BuildFailure::Generation(v) => e@ == v,
                    },
                    Ok(_) => true,
                }),
            }),
    {
        let ghost atoms = ax.atom_list@;
        let ghost entries = atom_types.entries@;
        let mut musical_elements: Vec<MusicalElement> = Vec::new();
        let mut current_state: S = S::get_neutral_state();
        let n = ax.atom_list.len();
        let mut i: usize = 0;
        proof {
            assert(atoms.skip(0) =~= atoms);
        }
        while i < n
            invariant
                atoms == ax.atom_list@,
                entries == atom_types.entries@,
                atom_types.wf(),
                forall|q: int|
                    0 <= q < entries.len() ==> atom_type_pre::<S, A>((#[trigger] entries[q]).1),
                n == atoms.len(),
                i <= n,
                ({
                    let total = spec_build::<S, A>(atoms, entries, S::spec_neutral());
                    match spec_build::<S, A>(atoms.skip(i as int), entries, current_state) {
                        Ok(rest) => total == Ok::<Seq<MusicalElement>, BuildFailure>(
                            musical_elements@ + rest,
                        ),
                        Err(e) => total == Err::<Seq<MusicalElement>, BuildFailure>(e),
                    }
                }),
            decreases n - i,
        {
            let atom = ax.atom_list[i];
            proof {
                assert(atoms.skip(i as int)[0] == atoms[i as int]);
                assert(atoms.skip(i as int).drop_first() =~= atoms.skip(i + 1));
                assert(atoms.skip(i as int).len() > 0);
            }
            match atom_types.get(&atom) {
                Some(atom_type) => {
                    match atom_type {
                        AtomType::HasAction { action } => {
                            proof {
                                let q = choose|q: int|
                                    0 <= q < entries.len() && (#[trigger] entries[q]).0.symbol
                                        == atom.symbol;
                                assert(atom_type_pre::<S, A>(entries[q].1));
                            }
                            let ghost pre_state = current_state;
                            match action.gen_next_musical_element(atom.symbol, &mut current_state) {
                                Ok(element) => {
                                    let ghost old_elems = musical_elements@;
                                    musical_elements.push(element);
                                    proof {
                                        let p = action.spec_gen(
                                            atoms[i as int].symbol,
                                            pre_state,
                                        )->Ok_0;
                                        assert(musical_elements@ =~= old_elems + seq![p.0]);
                                        let rem_next = spec_build::<S, A>(
                                            atoms.skip(i + 1),
                                            entries,
                                            p.1,
                                        );
                                        if rem_next is Ok {
                                            assert((old_elems + seq![p.0]) + rem_next->Ok_0
                                                =~= old_elems + (seq![p.0] + rem_next->Ok_0));
                                        }
                                    }
                                },
                                Err(e) => {
                                    return Err(e);
                                },
                            }
                        },
                        AtomType::PushStack => {
                            current_state.push();
                        },
                        AtomType::PopStack => {
                            match current_state.pop() {
                                Ok(_) => {},
                                Err(e) => {
                                    return Err(e);
                                },
                            }
                        },
                        AtomType::NoAction => {},
                    }
                },
                None => {
                    return Err(ActionError::from_error_kind(ErrorKind::UndefinedAtomType));
                },
            }
            i = i + 1;
        }
        proof {
            assert(atoms.skip(n as int) =~= Seq::<Atom>::empty());
            assert(spec_build::<S, A>(atoms.skip(n as int), entries, current_state)
                == Ok::<Seq<MusicalElement>, BuildFailure>(Seq::empty()));
            assert(musical_elements@ + Seq::<MusicalElement>::empty() =~= musical_elements@);
        }
        Ok(Voice { musical_elements })
    }
}

/// Error for a symbol that the simple action cannot map.
#[derive(Debug)]
pub struct MappingError {
    symbol: char,
}

/// The text that [`MappingError::message`] renders for symbol `c`.
pub open spec fn mapping_error_text(c: char) -> Seq<char> {
    "Unexpected symbol: '"@ + seq![c] + "'."@
}

impl MappingError {
    /// The spec-level symbol this error names.
    pub closed spec fn spec_symbol(&self) -> char {
        self.symbol
    }

    pub fn new(symbol: char) -> (e: MappingError)
        ensures
            e.spec_symbol() == symbol,
    {
        MappingError { symbol }
    }

    /// Renders the error as one sentence naming the symbol.
    pub fn message(&self) -> (r: String)
        ensures
            r@ == mapping_error_text(self.spec_symbol()),
    {
        let mut r = String::from_str("Unexpected symbol: '");
        push_char(&mut r, self.symbol);
        r.append("'.");
        proof {
            assert(r@ =~= mapping_error_text(self.symbol));
        }
        r
    }
}

/// Error for a key and scale that yield no pitches.
#[derive(Debug)]
pub struct PitchError {
    key_msg: String,
}

/// The text that [`PitchError::message`] renders for the key written
/// as `key_msg`.
pub open spec fn pitch_error_text(key_msg: Seq<char>) -> Seq<char> {
    "No pitches for a "@ + key_msg + " key."@
}

impl PitchError {
    pub fn new<T: Temperament>(key: &Key<T>) -> (e: PitchError)
        ensures
            e@ == crate::key::spec_key_string(key.tone),
    {
        PitchError { key_msg: key.as_string() }
    }

    /// Renders the error as one sentence naming the key.
    pub fn message(&self) -> (r: String)
        ensures
            r@ == pitch_error_text(self@),
    {
        let mut r = String::from_str("No pitches for a ");
        r.append(self.key_msg.as_str());
        r.append(" key.");
        r
    }
}

impl View for PitchError {
    type V = Seq<char>;

    /// The key's textual form, as stored when the error was made.
    closed spec fn view(&self) -> Seq<char> {
        self.key_msg@
    }
}

/// The simple one-to-one mapping action: the 26 upper case letters A
/// to Z and the 23 lower case letters a to w map, in that single
/// continuous order, to the 49 consecutive degrees of seven octaves of
/// the key's scale, each a note of unit duration and medium volume;
/// the letter x maps to a rest of unit duration; any other symbol is a
/// mapping error.
#[derive(Copy, Clone, Debug)]
pub struct SimpleAction<T: Temperament> {
    pub key: Key<T>,
}

impl<T: Temperament> SimpleAction<T> {
    pub fn new(key: Key<T>) -> (r: SimpleAction<T>)
        ensures
            r.key == key,
    {
        SimpleAction { key }
    }
}

impl<T: Temperament> Action<NeutralActionState> for SimpleAction<T> {
    open spec fn gen_pre(&self) -> bool {
        self.key.pitch_walk_pre(4, 49)
    }

    open spec fn spec_gen(&self, symbol: char, state: NeutralActionState) -> Result<
        (MusicalElement, NeutralActionState),
        ActionErrorView,
    > {
        match spec_scale_pitches(self.key.temperament, self.key.scale@, 4, 1, 49) {
            None => Err(
                ActionErrorView {
                    kind: ErrorKind::GenerationError,
                    message: pitch_error_text(crate::key::spec_key_string(self.key.tone)),
                },
            ),
            Some(pitches) => {
                if symbol == 'x' {
                    Ok((MusicalElement::Rest { duration: Duration(1) }, state))
                } else if 'A' <= symbol && symbol <= 'Z' {
                    Ok(
                        (
                            MusicalElement::Note {
                                pitch: pitches[symbol as int - 'A' as int],
                                duration: Duration(1),
                                volume: Volume(140),
                            },
                            state,
                        ),
                    )
                } else if 'a' <= symbol && symbol <= 'w' {
                    Ok(
                        (
                            MusicalElement::Note {
                                pitch: pitches[26 + symbol as int - 'a' as int],
                                duration: Duration(1),
                                volume: Volume(140),
                            },
                            state,
                        ),
                    )
                } else {
                    Err(
                        ActionErrorView {
                            kind: ErrorKind::GenerationError,
                            message: mapping_error_text(symbol),
                        },
                    )
                }
            },
        }
    }

    fn gen_next_musical_element(&self, symbol: char, state: &mut NeutralActionState) -> (r: Result<
        MusicalElement,
        ActionError,
    >) {
        match self.key.get_scale_pitches(4, 1, 49) {
            Some(pitches) => {
                if symbol == 'x' {
                    Ok(MusicalElement::Rest { duration: Duration(1) })
                } else if 'A' <= symbol && symbol <= 'Z' {
                    let char_pos = symbol as u32;
                    Ok(
                        MusicalElement::Note {
                            pitch: pitches[(char_pos - 65) as usize],
                            duration: Duration(1),
                            volume: Volume::m(),
                        },
                    )
                } else if 'a' <= symbol && symbol <= 'w' {
                    let char_pos = symbol as u32;
                    Ok(
                        MusicalElement::Note {
                            pitch: pitches[(26 + char_pos - 97) as usize],
                            duration: Duration(1),
                            volume: Volume::m(),
                        },
                    )
                } else {
                    let mapping_error = MappingError::new(symbol);
                    Err(ActionError::from_generation_error(mapping_error.message()))
                }
            },
            None => {
                let pitch_error = PitchError::new(&self.key);
                Err(ActionError::from_generation_error(pitch_error.message()))
            },
        }
    }
}

/// Law: whenever the key's scale yields its 49 pitches at all, the
/// symbol `x` maps to a rest of unit duration, whatever the key is.
pub proof fn lemma_simple_action_x_is_rest<T: Temperament>(
    a: SimpleAction<T>,
    state: NeutralActionState,
)
    requires
        spec_scale_pitches(a.key.temperament, a.key.scale@, 4, 1, 49) is Some,
    ensures
        a.spec_gen('x', state) == Ok::<(MusicalElement, NeutralActionState), ActionErrorView>(
            (MusicalElement::Rest { duration: Duration(1) }, state),
        ),
{
}

/// Law: a symbol outside A to Z, a to w and x yields a mapping error
/// naming it, whenever the key's scale yields its pitches at all.
pub proof fn lemma_simple_action_unmapped_symbol<T: Temperament>(
    a: SimpleAction<T>,
    state: NeutralActionState,
    symbol: char,
)
    requires
        spec_scale_pitches(a.key.temperament, a.key.scale@, 4, 1, 49) is Some,
        symbol != 'x',
        !('A' <= symbol && symbol <= 'Z'),
        !('a' <= symbol && symbol <= 'w'),
    ensures
        a.spec_gen(symbol, state) == Err::<(MusicalElement, NeutralActionState), ActionErrorView>(
            ActionErrorView {
                kind: ErrorKind::GenerationError,
                message: mapping_error_text(symbol),
            },
        ),
{
}

/// Law: the symbol A maps to the first degree of the scale in octave
/// 4: the walk starts there, before any octave boundary is crossed.
pub proof fn lemma_simple_action_first_degree<T: Temperament>(
    a: SimpleAction<T>,
    state: NeutralActionState,
)
    requires
        spec_scale_pitches(a.key.temperament, a.key.scale@, 4, 1, 49) is Some,
    ensures
        a.spec_gen('A', state) matches Ok(p) && p.0 == (MusicalElement::Note {
            pitch: a.key.temperament.spec_pitch(4, a.key.scale@[0])->Some_0,
            duration: Duration(1),
            volume: Volume(140),
        }),
{
    let pitches = spec_scale_pitches(a.key.temperament, a.key.scale@, 4, 1, 49)->Some_0;
    crate::key::lemma_walk_starts_at_first_degree(a.key.temperament, a.key.scale@, 4, 49);
    assert(pitches[0] == a.key.temperament.spec_pitch(4, a.key.scale@[0])->Some_0);
    assert('A' as int == 65);
}

} // verus!
