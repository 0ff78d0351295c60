use vstd::math::min;
use vstd::prelude::*;

use crate::automaton::tokens;
use crate::element::{
    chars_of,
    element_of_chars,
    element_of_token,
    lemma_token_round_trip,
    token,
    DecodeError,
    DecodeFailure,
    SuumoElement,
};

verus! {

/// The length of the token that can start at the front of `t`, read from its
/// leading codepoint and, where that is `ス`, from the one after it; `None`
/// where no token starts that way.
pub open spec fn candidate_len(t: Seq<char>) -> Option<nat> {
    if t.len() == 0 {
        None
    } else if t[0] == 'あ' {
        Some(10)
    } else if t[0] == 'ダ' {
        Some(3)
    } else if t[0] == 'シ' {
        Some(5)
    } else if t[0] == 'ス' {
        if t.len() < 2 {
            None
        } else if t[1] == '〜' {
            Some(7)
        } else if t[1] == 'モ' {
            Some(3)
        } else {
            None
        }
    } else {
        None
    }
}

/// The symbols that `t` spells, read left to right: at each position the
/// candidate token (cut short by the end of the text) must be a token
/// exactly.
pub open spec fn decode(t: Seq<char>) -> Result<Seq<SuumoElement>, DecodeFailure>
    decreases t.len(),
{
    if t.len() == 0 {
        Ok(Seq::empty())
    } else {
        match candidate_len(t) {
            None => Err(DecodeFailure::MalformedToken(t)),
            Some(n) => {
                let cand = t.take(min(n as int, t.len() as int));
                match element_of_token(cand) {
                    None => Err(DecodeFailure::UnknownToken(cand)),
                    Some(e) => match decode(t.skip(cand.len() as int)) {
                        Ok(rest) => Ok(seq![e] + rest),
                        Err(f) => Err(f),
                    },
                }
            },
        }
    }
}

/// `r` with `p` put in front of its symbols.
spec fn prefixed(
    p: Seq<SuumoElement>,
    r: Result<Seq<SuumoElement>, DecodeFailure>,
) -> Result<Seq<SuumoElement>, DecodeFailure> {
    match r {
        Ok(x) => Ok(p + x),
        Err(f) => Err(f),
    }
}

/// `candidate_len` on the codepoints of `cs` from `i` on.
fn candidate_len_at(cs: &Vec<char>, i: usize) -> (r: Option<usize>)
    requires
        i < cs.len(),
    ensures
        match r {
            Some(n) => candidate_len(cs@.skip(i as int)) == Some(n as nat),
            None => candidate_len(cs@.skip(i as int)) is None,
        },
{
    let c = cs[i];
    if c == 'あ' {
        Some(10)
    } else if c == 'ダ' {
        Some(3)
    } else if c == 'シ' {
        Some(5)
    } else if c == 'ス' {
        if i + 1 >= cs.len() {
            None
        } else if cs[i + 1] == '〜' {
            Some(7)
        } else if cs[i + 1] == 'モ' {
            Some(3)
        } else {
            None
        }
    } else {
        None
    }
}

/// Reads `value` back as the symbols whose tokens it concatenates.
pub fn try_string_to_suumo_elements(value: String) -> (r: Result<Vec<SuumoElement>, DecodeError>)
    ensures
        match r {
            Ok(v) => decode(value@) == Ok::<Seq<SuumoElement>, DecodeFailure>(v@),
            Err(e) => decode(value@) == Err::<Seq<SuumoElement>, DecodeFailure>(e@),
        },
{
    let s = value.as_str();
    let cs = chars_of(s);
    let len = cs.len();
    let mut result: Vec<SuumoElement> = Vec::new();
    let mut i: usize = 0;
    assert(cs@.skip(0) =~= cs@);
    assert(prefixed(result@, decode(cs@)) =~= decode(cs@)) by {
        if decode(cs@) is Ok {
            assert(result@ + decode(cs@)->Ok_0 =~= decode(cs@)->Ok_0);
        }
    }
    while i < len
        invariant
            i <= len == cs.len(),
            cs@ == value@,
            s@ == value@,
            decode(value@) == prefixed(result@, decode(cs@.skip(i as int))),
        decreases len - i,
    {
        let ghost t = cs@.skip(i as int);
        let n = match candidate_len_at(&cs, i) {
            Some(n) => n,
            None => {
                assert(s@.subrange(i as int, len as int) =~= t);
                return Err(DecodeError::MalformedToken(String::from_str(s.substring_char(i, len))));
            },
        };
        let end = if n <= len - i {
            i + n
        } else {
            len
        };
        assert(t.take(min(n as int, t.len() as int)) =~= cs@.subrange(i as int, end as int));
        match element_of_chars(&cs, i, end) {
            Some(e) => {
                proof {
                    let tail = cs@.skip(end as int);
                    assert(t.skip(end - i) =~= tail);
                    match decode(tail) {
                        Ok(x) => {
                            assert(result@ + (seq![e] + x) =~= result@.push(e) + x);
                        },
                        Err(_) => {},
                    }
                }
                result.push(e);
                i = end;
            },
            None => {
                return Err(DecodeError::UnknownToken(String::from_str(s.substring_char(i, end))));
            },
        }
    }
    assert(cs@.skip(len as int) =~= Seq::<char>::empty());
    assert(result@ + Seq::<SuumoElement>::empty() =~= result@);
    Ok(result)
}

/// A text that starts with the first two codepoints of a token (or with its
/// first one, where the text has no more) has either no candidate token or
/// one as long as that token.
proof fn lemma_candidate_len_of_lead(e: SuumoElement, x: Seq<char>)
    requires
        x.len() >= 1,
        x[0] == token(e)[0],
        x.len() >= 2 ==> x[1] == token(e)[1],
    ensures
        candidate_len(x) is None || candidate_len(x) == Some(token(e).len()),
        x.len() >= 2 ==> candidate_len(x) == Some(token(e).len()),
{
}

/// Decoding the concatenated tokens of any symbols gives those symbols back.
pub proof fn lemma_decode_tokens(es: Seq<SuumoElement>)
    ensures
        decode(tokens(es)) == Ok::<Seq<SuumoElement>, DecodeFailure>(es),
    decreases es.len(),
{
    if es.len() == 0 {
        assert(es =~= Seq::<SuumoElement>::empty());
    } else {
        let e = es[0];
        let rest = es.drop_first();
        let t = tokens(es);
        let n = token(e).len();
        assert(t.take(n as int) =~= token(e));
        assert(t.skip(n as int) =~= tokens(rest));
        lemma_candidate_len_of_lead(e, t);
        lemma_token_round_trip(e);
        lemma_decode_tokens(rest);
        assert(seq![e] + rest =~= es);
    }
}

/// A text whose leading codepoint begins no token fails with
/// `MalformedToken`, carrying the whole text.
pub proof fn lemma_decode_unknown_lead(t: Seq<char>)
    requires
        t.len() > 0,
        forall|e: SuumoElement| token(e)[0] != t[0],
    ensures
        decode(t) == Err::<Seq<SuumoElement>, DecodeFailure>(DecodeFailure::MalformedToken(t)),
{
    assert(token(SuumoElement::ASuumo)[0] != t[0]);
    assert(token(SuumoElement::Dan)[0] != t[0]);
    assert(token(SuumoElement::Shaan)[0] != t[0]);
    assert(token(SuumoElement::SumoFullMoon)[0] != t[0]);
}

/// Each token starts a text with a candidate as long as itself.
proof fn lemma_candidate_len_of_token(e: SuumoElement)
    ensures
        candidate_len(token(e)) == Some(token(e).len()),
{
    lemma_candidate_len_of_lead(e, token(e));
}

/// Any tokens followed by a token cut short (some, not all, of its leading
/// codepoints) fail to decode.
pub proof fn lemma_decode_truncated(es: Seq<SuumoElement>, e: SuumoElement, k: nat)
    requires
        0 < k < token(e).len(),
    ensures
        decode(tokens(es) + token(e).take(k as int)) is Err,
    decreases es.len(),
{
    let x = token(e).take(k as int);
    if es.len() == 0 {
        assert(tokens(es) + x =~= x);
        lemma_candidate_len_of_lead(e, x);
        if candidate_len(x) is Some {
            let n = token(e).len();
            assert(x.take(min(n as int, x.len() as int)) =~= x);
            if element_of_token(x) is Some {
                let f = element_of_token(x)->Some_0;
                assert(x == token(f));
                lemma_candidate_len_of_token(f);
            }
        }
    } else {
        let e0 = es[0];
        let rest = es.drop_first();
        let t = tokens(es) + x;
        let n = token(e0).len();
        assert(t.take(n as int) =~= token(e0));
        assert(t.skip(n as int) =~= tokens(rest) + x);
        lemma_candidate_len_of_lead(e0, t);
        lemma_token_round_trip(e0);
        lemma_decode_truncated(rest, e, k);
    }
}

} // verus!
