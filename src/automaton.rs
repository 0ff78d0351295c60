use vstd::prelude::*;

use vstd::math::min;

use crate::element::{token, SuumoElement};

verus! {

/// Progress of the recognizer: `Sk` means that the first `k` symbols of
/// `target()` have been matched; `S19` is terminal.
#[derive(Debug, Clone, Copy, PartialEq, Eq, Structural)]
pub enum SuumoState {
    S0,
    S1,
    S2,
    S3,
    S4,
    S5,
    S6,
    S7,
    S8,
    S9,
    S10,
    S11,
    S12,
    S13,
    S14,
    S15,
    S16,
    S17,
    S18,
    S19,
}

/// The pattern that the automaton recognizes.
pub open spec fn target() -> Seq<SuumoElement> {
    seq![
        SuumoElement::ASuumo,
        SuumoElement::Dan,
        SuumoElement::Dan,
        SuumoElement::Dan,
        SuumoElement::Shaan,
        SuumoElement::SumoFullMoon,
        SuumoElement::SumoNewMoon,
        SuumoElement::SumoFullMoon,
        SuumoElement::SumoNewMoon,
        SuumoElement::SumoFullMoon,
        SuumoElement::SumoNewMoon,
        SuumoElement::SuuuumoUp,
        SuumoElement::SumoNewMoon,
        SuumoElement::SumoFullMoon,
        SuumoElement::SumoNewMoon,
        SuumoElement::SumoFullMoon,
        SuumoElement::SumoNewMoon,
        SuumoElement::SumoFullMoon,
        SuumoElement::SuuuumoDown,
    ]
}

/// The concatenated tokens of `es`.
pub open spec fn tokens(es: Seq<SuumoElement>) -> Seq<char>
    decreases es.len(),
{
    if es.len() == 0 {
        Seq::empty()
    } else {
        token(es[0]) + tokens(es.drop_first())
    }
}

impl SuumoState {
    /// The number of pattern symbols matched so far.
    pub open spec fn index(self) -> nat {
        match self {
            SuumoState::S0 => 0,
            SuumoState::S1 => 1,
            SuumoState::S2 => 2,
            SuumoState::S3 => 3,
            SuumoState::S4 => 4,
            SuumoState::S5 => 5,
            SuumoState::S6 => 6,
            SuumoState::S7 => 7,
            SuumoState::S8 => 8,
            SuumoState::S9 => 9,
            SuumoState::S10 => 10,
            SuumoState::S11 => 11,
            SuumoState::S12 => 12,
            SuumoState::S13 => 13,
            SuumoState::S14 => 14,
            SuumoState::S15 => 15,
            SuumoState::S16 => 16,
            SuumoState::S17 => 17,
            SuumoState::S18 => 18,
            SuumoState::S19 => 19,
        }
    }

    /// The state with `k` pattern symbols matched.
    pub open spec fn at(k: nat) -> SuumoState
        recommends
            k <= 19,
    {
        if k == 0 {
            SuumoState::S0
        } else if k == 1 {
            SuumoState::S1
        } else if k == 2 {
            SuumoState::S2
        } else if k == 3 {
            SuumoState::S3
        } else if k == 4 {
            SuumoState::S4
        } else if k == 5 {
            SuumoState::S5
        } else if k == 6 {
            SuumoState::S6
        } else if k == 7 {
            SuumoState::S7
        } else if k == 8 {
            SuumoState::S8
        } else if k == 9 {
            SuumoState::S9
        } else if k == 10 {
            SuumoState::S10
        } else if k == 11 {
            SuumoState::S11
        } else if k == 12 {
            SuumoState::S12
        } else if k == 13 {
            SuumoState::S13
        } else if k == 14 {
            SuumoState::S14
        } else if k == 15 {
            SuumoState::S15
        } else if k == 16 {
            SuumoState::S16
        } else if k == 17 {
            SuumoState::S17
        } else if k == 18 {
            SuumoState::S18
        } else {
            SuumoState::S19
        }
    }
}

/// One transition. The terminal state takes nothing. Otherwise the next
/// pattern symbol advances the match by one; failing that, `ASuumo` restarts
/// it at one symbol matched, and any other symbol resets it.
pub open spec fn step(s: SuumoState, e: SuumoElement) -> Option<SuumoState> {
    if s is S19 {
        None
    } else if e == target()[s.index() as int] {
        Some(SuumoState::at(s.index() + 1))
    } else if e is ASuumo {
        Some(SuumoState::S1)
    } else {
        Some(SuumoState::S0)
    }
}

/// The symbols of `es` that the automaton takes in from `s`: all of them, up
/// to the first one offered in the terminal state.
pub open spec fn accepted(s: SuumoState, es: Seq<SuumoElement>) -> Seq<SuumoElement>
    decreases es.len(),
{
    if es.len() == 0 {
        Seq::empty()
    } else {
        match step(s, es[0]) {
            Some(t) => seq![es[0]] + accepted(t, es.drop_first()),
            None => Seq::empty(),
        }
    }
}

/// The state reached from `s` by offering the symbols of `es` in order.
pub open spec fn run(s: SuumoState, es: Seq<SuumoElement>) -> SuumoState
    decreases es.len(),
{
    if es.len() == 0 {
        s
    } else {
        match step(s, es[0]) {
            Some(t) => run(t, es.drop_first()),
            None => s,
        }
    }
}

/// What a bounded random run may hand back, whatever was drawn: the tokens
/// of some symbols `es`, all of them taken in from `s`, that lead from `s` to
/// `end`, at most `n` of them, and fewer only where `end` is terminal.
pub open spec fn bounded_run(s: SuumoState, n: nat, out: Seq<char>, end: SuumoState) -> bool {
    exists|es: Seq<SuumoElement>|
        {
            &&& accepted(s, es) == es
            &&& #[trigger] run(s, es) == end
            &&& out == tokens(es)
            &&& es.len() <= n
            &&& (es.len() == n || end is S19)
        }
}

impl SuumoState {
    /// The initial state, with nothing matched.
    pub fn new() -> (r: Self)
        ensures
            r == SuumoState::S0,
    {
        SuumoState::S0
    }

    /// Feeds one symbol. Returns the new state, or `None`, with the state
    /// left as it was, where the automaton is already terminal.
    pub fn next_with_suumo_element(&mut self, next_element: SuumoElement) -> (r: Option<Self>)
        ensures
            r == step(*old(self), next_element),
            *final(self) == match r {
                Some(t) => t,
                None => *old(self),
            },
    {
        let e = next_element;
        let t = match *self {
            SuumoState::S0 if e == SuumoElement::ASuumo => SuumoState::S1,
            SuumoState::S1 if e == SuumoElement::Dan => SuumoState::S2,
            SuumoState::S2 if e == SuumoElement::Dan => SuumoState::S3,
            SuumoState::S3 if e == SuumoElement::Dan => SuumoState::S4,
            SuumoState::S4 if e == SuumoElement::Shaan => SuumoState::S5,
            SuumoState::S5 if e == SuumoElement::SumoFullMoon => SuumoState::S6,
            SuumoState::S6 if e == SuumoElement::SumoNewMoon => SuumoState::S7,
            SuumoState::S7 if e == SuumoElement::SumoFullMoon => SuumoState::S8,
            SuumoState::S8 if e == SuumoElement::SumoNewMoon => SuumoState::S9,
            SuumoState::S9 if e == SuumoElement::SumoFullMoon => SuumoState::S10,
            SuumoState::S10 if e == SuumoElement::SumoNewMoon => SuumoState::S11,
            SuumoState::S11 if e == SuumoElement::SuuuumoUp => SuumoState::S12,
            SuumoState::S12 if e == SuumoElement::SumoNewMoon => SuumoState::S13,
            SuumoState::S13 if e == SuumoElement::SumoFullMoon => SuumoState::S14,
            SuumoState::S14 if e == SuumoElement::SumoNewMoon => SuumoState::S15,
            SuumoState::S15 if e == SuumoElement::SumoFullMoon => SuumoState::S16,
            SuumoState::S16 if e == SuumoElement::SumoNewMoon => SuumoState::S17,
            SuumoState::S17 if e == SuumoElement::SumoFullMoon => SuumoState::S18,
            SuumoState::S18 if e == SuumoElement::SuuuumoDown => SuumoState::S19,
            SuumoState::S19 => {
                return None;
            },
            _ if e == SuumoElement::ASuumo => SuumoState::S1,
            _ => SuumoState::S0,
        };
        *self = t;
        Some(t)
    }
    /// Draws one symbol at random and feeds it. Returns the new state with the
    /// symbol drawn, or `None`, with the state left as it was, where the
    /// automaton is already terminal.
    pub fn next(&mut self) -> (r: Option<(SuumoState, SuumoElement)>)
        ensures
            match r {
                Some((t, e)) => step(*old(self), e) == Some(t) && *final(self) == t,
                None => *old(self) is S19 && *final(self) == *old(self),
            },
    {
        let e = SuumoElement::new();
        match self.next_with_suumo_element(e) {
            Some(t) => Some((t, e)),
            None => None,
        }
    }

    /// Feeds at most `n` random symbols, stopping early where the automaton
    /// becomes terminal; returns the tokens of the symbols taken in.
    pub fn collect_to_string_nth(&mut self, n: usize) -> (r: String)
        ensures
            bounded_run(*old(self), n as nat, r@, *final(self)),
    {
        let ghost s0 = *self;
        let mut result = String::new();
        let ghost mut drawn: Seq<SuumoElement> = Seq::empty();
        let mut i: usize = 0;
        while i < n
            invariant
                i <= n,
                drawn.len() == i,
                accepted(s0, drawn) == drawn,
                run(s0, drawn) == *self,
                result@ == tokens(drawn),
            ensures
                drawn.len() == n || *self is S19,
            decreases n - i,
        {
            match self.next() {
                Some((_, e)) => {
                    proof {
                        lemma_accepted_push(s0, drawn, e);
                        lemma_tokens_push(drawn, e);
                        drawn = drawn.push(e);
                    }
                    result.append(e.to_string().as_str());
                },
                None => {
                    break;
                },
            }
            i += 1;
        }
        assert(run(s0, drawn) == *self);
        result
    }

    /// Feeds random symbols until the automaton becomes terminal and returns
    /// the tokens of the symbols taken in. The draws stop after `usize::MAX`
    /// symbols, a count whose tokens no `String` could hold.
    pub fn collect_to_string(&mut self) -> (r: String)
        ensures
            bounded_run(*old(self), usize::MAX as nat, r@, *final(self)),
    {
        self.collect_to_string_nth(usize::MAX)
    }

    /// Feeds the symbols of `elements` in order, stopping at the first one
    /// offered in the terminal state; returns the tokens of those taken in.
    pub fn collect_to_string_with_suumo_elements(&mut self, elements: Vec<SuumoElement>) -> (r:
        String)
        ensures
            r@ == tokens(accepted(*old(self), elements@)),
            *final(self) == run(*old(self), elements@),
    {
        let n = elements.len();
        assert(elements@.take(n as int) =~= elements@);
        self.collect_to_string_with_suumo_elements_nth(n, elements)
    }

    /// Feeds the first `n` symbols of `elements` (all of them where there are
    /// fewer), stopping at the first one offered in the terminal state;
    /// returns the tokens of those taken in.
    pub fn collect_to_string_with_suumo_elements_nth(
        &mut self,
        n: usize,
        elements: Vec<SuumoElement>,
    ) -> (r: String)
        ensures
            r@ == tokens(accepted(*old(self), elements@.take(min(n as int, elements@.len() as int)))),
            *final(self) == run(*old(self), elements@.take(min(n as int, elements@.len() as int))),
    {
        let ghost s0 = *self;
        let len = if n < elements.len() {
            n
        } else {
            elements.len()
        };
        let ghost es = elements@.take(len as int);
        let mut result = String::new();
        let ghost mut done: Seq<SuumoElement> = Seq::empty();
        let mut i: usize = 0;
        assert(es.skip(0) =~= es);
        assert(done + accepted(s0, es) =~= accepted(s0, es));
        while i < len
            invariant_except_break
                i <= len,
                accepted(s0, es) == done + accepted(*self, es.skip(i as int)),
                run(s0, es) == run(*self, es.skip(i as int)),
            invariant
                len <= elements.len(),
                es == elements@.take(len as int),
                result@ == tokens(done),
            ensures
                accepted(s0, es) == done,
                run(s0, es) == *self,
            decreases len - i,
        {
            let e = elements[i];
            let ghost rest = es.skip(i as int);
            let ghost cur = *self;
            assert(rest[0] == e);
            assert(rest.drop_first() =~= es.skip(i + 1));
            match self.next_with_suumo_element(e) {
                Some(_) => {
                    proof {
                        assert(done + accepted(cur, rest) =~= done.push(e) + accepted(*self, es.skip(i + 1)));
                        lemma_tokens_push(done, e);
                        done = done.push(e);
                    }
                    result.append(e.to_string().as_str());
                },
                None => {
                    assert(done + accepted(*self, rest) =~= done);
                    break;
                },
            }
            i += 1;
        }
        proof {
            if i == len {
                assert(es.skip(i as int) =~= Seq::<SuumoElement>::empty());
                assert(done + Seq::<SuumoElement>::empty() =~= done);
            }
        }
        result
    }
}

/// Appending a symbol appends its token.
pub proof fn lemma_tokens_push(es: Seq<SuumoElement>, e: SuumoElement)
    ensures
        tokens(es.push(e)) == tokens(es) + token(e),
    decreases es.len(),
{
    let p = es.push(e);
    assert(p[0] == if es.len() == 0 { e } else { es[0] });
    if es.len() == 0 {
        assert(p.drop_first() =~= Seq::<SuumoElement>::empty());
        assert(tokens(p.drop_first()) == Seq::<char>::empty());
        assert(tokens(p) =~= tokens(es) + token(e));
    } else {
        assert(p.drop_first() =~= es.drop_first().push(e));
        lemma_tokens_push(es.drop_first(), e);
        assert(tokens(p) =~= tokens(es) + token(e));
    }
}

/// A symbol taken in after a run that took in everything extends that run.
pub proof fn lemma_accepted_push(s: SuumoState, es: Seq<SuumoElement>, e: SuumoElement)
    requires
        accepted(s, es) == es,
        step(run(s, es), e) is Some,
    ensures
        accepted(s, es.push(e)) == es.push(e),
        run(s, es.push(e)) == step(run(s, es), e)->0,
    decreases es.len(),
{
    let p = es.push(e);
    assert(p[0] == if es.len() == 0 { e } else { es[0] });
    if es.len() == 0 {
        let t = step(s, e)->0;
        assert(p.drop_first() =~= Seq::<SuumoElement>::empty());
        assert(accepted(t, p.drop_first()) == Seq::<SuumoElement>::empty());
        assert(run(t, p.drop_first()) == t);
        assert(accepted(s, p) =~= p);
    } else {
        let t = step(s, es[0])->0;
        let rest = es.drop_first();
        assert(step(s, es[0]) is Some);
        assert(accepted(t, rest) =~= es.drop_first());
        assert(p.drop_first() =~= rest.push(e));
        lemma_accepted_push(t, rest, e);
        assert(accepted(s, p) =~= p);
    }
}

/// The transition table: from the state with `k < 19` symbols matched, the
/// next pattern symbol leads to `k + 1` matched; any other symbol leads to one
/// matched where it is the anchor `ASuumo`, and to none otherwise.
pub proof fn lemma_transition_table(k: nat, e: SuumoElement)
    requires
        k < 19,
    ensures
        SuumoState::at(k).index() == k,
        step(SuumoState::at(k), e) == if e == target()[k as int] {
            Some(SuumoState::at(k + 1))
        } else if e is ASuumo {
            Some(SuumoState::S1)
        } else {
            Some(SuumoState::S0)
        },
{
}

/// The terminal state takes in nothing and is never left, whatever is fed.
pub proof fn lemma_terminal_absorbs(es: Seq<SuumoElement>)
    ensures
        accepted(SuumoState::S19, es) == Seq::<SuumoElement>::empty(),
        run(SuumoState::S19, es) == SuumoState::S19,
{
}

/// The symbols taken in are a prefix of those offered, all of them taken in
/// from `s`, leading to the same state; fewer than all only where that state
/// is terminal.
pub proof fn lemma_accepted_prefix(s: SuumoState, es: Seq<SuumoElement>)
    ensures
        accepted(s, es).len() <= es.len(),
        accepted(s, es) == es.take(accepted(s, es).len() as int),
        accepted(s, accepted(s, es)) == accepted(s, es),
        run(s, accepted(s, es)) == run(s, es),
        accepted(s, es).len() < es.len() ==> run(s, es) is S19,
    decreases es.len(),
{
    let a = accepted(s, es);
    if es.len() == 0 {
        assert(es.take(0) =~= a);
    } else {
        match step(s, es[0]) {
            Some(t) => {
                let rest = es.drop_first();
                lemma_accepted_prefix(t, rest);
                let b = accepted(t, rest);
                assert(a == seq![es[0]] + b);
                assert(a =~= es.take(a.len() as int));
                assert(a[0] == es[0]);
                assert(a.drop_first() =~= b);
            },
            None => {
                assert(es.take(0) =~= a);
            },
        }
    }
}

/// A run over the first `n` of the symbols `es` takes in at most `n` of them,
/// stops before `n` (or before the end of `es`) only in the terminal state,
/// and for `n == 0` takes in nothing and yields no text.
pub proof fn lemma_run_to_n(s: SuumoState, es: Seq<SuumoElement>, n: nat)
    ensures
        ({
            let offered = es.take(min(n as int, es.len() as int));
            let a = accepted(s, offered);
            &&& a.len() <= n
            &&& a == es.take(a.len() as int)
            &&& (a.len() < offered.len() ==> run(s, a) is S19)
            &&& (n == 0 ==> a.len() == 0 && tokens(a).len() == 0)
        }),
{
    let offered = es.take(min(n as int, es.len() as int));
    lemma_accepted_prefix(s, offered);
    let a = accepted(s, offered);
    assert(a =~= es.take(a.len() as int));
}

} // verus!
