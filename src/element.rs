use rand::Rng;
use vstd::prelude::*;

verus! {

/// One symbol of the seven-letter alphabet.
#[derive(Debug, Clone, Copy, PartialEq, Eq, Structural)]
pub enum SuumoElement {
    ASuumo,
    Dan,
    Shaan,
    SumoFullMoon,
    SumoNewMoon,
    SuuuumoUp,
    SuuuumoDown,
}

/// The seven symbols, in declaration order.
pub open spec fn all_elements() -> Seq<SuumoElement> {
    seq![
        SuumoElement::ASuumo,
        SuumoElement::Dan,
        SuumoElement::Shaan,
        SuumoElement::SumoFullMoon,
        SuumoElement::SumoNewMoon,
        SuumoElement::SuuuumoUp,
        SuumoElement::SuuuumoDown,
    ]
}

/// The canonical text of each symbol, codepoint by codepoint.
pub open spec fn token(e: SuumoElement) -> Seq<char> {
    match e {
        SuumoElement::ASuumo => seq![
            'あ',
            '\u{2757}',
            '\u{fe0f}',
            ' ',
            'ス',
            'ー',
            'モ',
            '\u{2757}',
            '\u{fe0f}',
            '\u{1f31a}',
        ],
        SuumoElement::Dan => seq!['ダ', 'ン', '\u{1f4a5}'],
        SuumoElement::Shaan => seq!['シ', 'ャ', 'ー', 'ン', '\u{1f3b6}'],
        SuumoElement::SumoFullMoon => seq!['ス', 'モ', '\u{1f31d}'],
        SuumoElement::SumoNewMoon => seq!['ス', 'モ', '\u{1f31a}'],
        SuumoElement::SuuuumoUp => seq!['ス', '〜', '〜', '〜', 'モ', '\u{2934}', '\u{1f31d}'],
        SuumoElement::SuuuumoDown => seq!['ス', '〜', '〜', '〜', 'モ', '\u{2935}', '\u{1f31d}'],
    }
}

/// The symbol whose token is exactly `t`, if there is one.
pub open spec fn element_of_token(t: Seq<char>) -> Option<SuumoElement> {
    if t == token(SuumoElement::ASuumo) {
        Some(SuumoElement::ASuumo)
    } else if t == token(SuumoElement::Dan) {
        Some(SuumoElement::Dan)
    } else if t == token(SuumoElement::Shaan) {
        Some(SuumoElement::Shaan)
    } else if t == token(SuumoElement::SumoFullMoon) {
        Some(SuumoElement::SumoFullMoon)
    } else if t == token(SuumoElement::SumoNewMoon) {
        Some(SuumoElement::SumoNewMoon)
    } else if t == token(SuumoElement::SuuuumoUp) {
        Some(SuumoElement::SuuuumoUp)
    } else if t == token(SuumoElement::SuuuumoDown) {
        Some(SuumoElement::SuuuumoDown)
    } else {
        None
    }
}

/// Why a text could not be read back as symbols.
#[derive(Debug, PartialEq, Eq)]
pub enum DecodeError {
    /// A candidate piece of text is not exactly one of the seven tokens.
    UnknownToken(String),
    /// No token can start at the scan position; carries the text from there on.
    MalformedToken(String),
}

/// The mathematical content of a `DecodeError`.
pub enum DecodeFailure {
    UnknownToken(Seq<char>),
    MalformedToken(Seq<char>),
}

impl View for DecodeError {
    type V = DecodeFailure;

    open spec fn view(&self) -> DecodeFailure {
        match self {
            DecodeError::UnknownToken(t) => DecodeFailure::UnknownToken(t@),
            DecodeError::MalformedToken(t) => DecodeFailure::MalformedToken(t@),
        }
    }
}

impl DecodeError {
    /// The offending text.
    pub open spec fn text(self) -> Seq<char> {
        match self {
            DecodeError::UnknownToken(t) => t@,
            DecodeError::MalformedToken(t) => t@,
        }
    }

    /// A one-line description: `Invalid string: ` followed by the offending text.
    pub fn message(&self) -> (r: String)
        ensures
            r@ == "Invalid string: "@ + self.text(),
    {
        let head = String::from_str("Invalid string: ");
        match self {
            DecodeError::UnknownToken(t) => head.concat(t.as_str()),
            DecodeError::MalformedToken(t) => head.concat(t.as_str()),
        }
    }
}

/// Relies on rand::thread_rng and Rng::gen_range: a value drawn from `0..bound`.
#[verifier::external_body]
fn random_below(bound: u8) -> (r: u8)
    requires
        0 < bound,
    ensures
        r < bound,
{
    rand::thread_rng().gen_range(0..bound)
}

/// Whether `cs[start..end]` holds exactly the codepoints of `t`.
fn same_chars(cs: &Vec<char>, start: usize, end: usize, t: &Vec<char>) -> (r: bool)
    requires
        start <= end <= cs.len(),
    ensures
        r == (cs@.subrange(start as int, end as int) == t@),
{
    if end - start != t.len() {
        return false;
    }
    let mut j: usize = 0;
    while j < t.len()
        invariant
            end - start == t.len(),
            start <= end <= cs.len(),
            j <= t.len(),
            forall|k: int| 0 <= k < j ==> cs@[start + k] == t@[k],
        decreases t.len() - j,
    {
        if cs[start + j] != t[j] {
            assert(cs@.subrange(start as int, end as int)[j as int] != t@[j as int]);
            return false;
        }
        j += 1;
    }
    assert(cs@.subrange(start as int, end as int) =~= t@);
    true
}

/// The codepoints of `s`, in order.
pub(crate) fn chars_of(s: &str) -> (r: Vec<char>)
    ensures
        r@ == s@,
{
    let mut r: Vec<char> = Vec::new();
    for c in it: s.chars()
        invariant
            r@ == it.seq().take(it.index() as int),
    {
        r.push(c);
    }
    r
}

/// The symbol whose token is exactly `cs[start..end]`, if there is one.
pub(crate) fn element_of_chars(cs: &Vec<char>, start: usize, end: usize) -> (r: Option<SuumoElement>)
    requires
        start <= end <= cs.len(),
    ensures
        r == element_of_token(cs@.subrange(start as int, end as int)),
{
    let ghost t = cs@.subrange(start as int, end as int);
    let mut k: u8 = 0;
    while k < 7
        invariant
            t == cs@.subrange(start as int, end as int),
            start <= end <= cs.len(),
            k <= 7,
            forall|j: int| 0 <= j < k ==> t != token(#[trigger] all_elements()[j]),
        decreases 7 - k,
    {
        let e = SuumoElement::from_index(k);
        if same_chars(cs, start, end, &e.token_chars()) {
            return Some(e);
        }
        k += 1;
    }
    assert(forall|e: SuumoElement| t != token(e)) by {
        assert(forall|e: SuumoElement| #[trigger] token(e) == token(all_elements()[index_of(e) as int]));
    }
    None
}

/// The position of `e` in `all_elements()`.
pub open spec fn index_of(e: SuumoElement) -> nat {
    match e {
        SuumoElement::ASuumo => 0,
        SuumoElement::Dan => 1,
        SuumoElement::Shaan => 2,
        SuumoElement::SumoFullMoon => 3,
        SuumoElement::SumoNewMoon => 4,
        SuumoElement::SuuuumoUp => 5,
        SuumoElement::SuuuumoDown => 6,
    }
}

impl SuumoElement {
    /// A symbol drawn uniformly at random.
    pub fn new() -> (r: Self) {
        Self::from_index(random_below(7))
    }

    /// The `i`-th symbol in declaration order.
    pub fn from_index(i: u8) -> (r: Self)
        requires
            i < 7,
        ensures
            r == all_elements()[i as int],
    {
        match i {
            0 => Self::ASuumo,
            1 => Self::Dan,
            2 => Self::Shaan,
            3 => Self::SumoFullMoon,
            4 => Self::SumoNewMoon,
            5 => Self::SuuuumoUp,
            _ => Self::SuuuumoDown,
        }
    }

    /// The token of this symbol, as a string.
    pub fn to_string(&self) -> (r: String)
        ensures
            r@ == token(*self),
    {
        match self {
            Self::ASuumo => {
                let r = String::from_str("あ❗️ スーモ❗️🌚");
                proof {
                    reveal_strlit("あ❗️ スーモ❗️🌚");
                }
                assert(r@ =~= token(*self));
                r
            },
            Self::Dan => {
                let r = String::from_str("ダン💥");
                proof {
                    reveal_strlit("ダン💥");
                }
                assert(r@ =~= token(*self));
                r
            },
            Self::Shaan => {
                let r = String::from_str("シャーン🎶");
                proof {
                    reveal_strlit("シャーン🎶");
                }
                assert(r@ =~= token(*self));
                r
            },
            Self::SumoFullMoon => {
                let r = String::from_str("スモ🌝");
                proof {
                    reveal_strlit("スモ🌝");
                }
                assert(r@ =~= token(*self));
                r
            },
            Self::SumoNewMoon => {
                let r = String::from_str("スモ🌚");
                proof {
                    reveal_strlit("スモ🌚");
                }
                assert(r@ =~= token(*self));
                r
            },
            Self::SuuuumoUp => {
                let r = String::from_str("ス〜〜〜モ⤴🌝");
                proof {
                    reveal_strlit("ス〜〜〜モ⤴🌝");
                }
                assert(r@ =~= token(*self));
                r
            },
            Self::SuuuumoDown => {
                let r = String::from_str("ス〜〜〜モ⤵🌝");
                proof {
                    reveal_strlit("ス〜〜〜モ⤵🌝");
                }
                assert(r@ =~= token(*self));
                r
            },
        }
    }

    /// The token of this symbol, as codepoints.
    fn token_chars(&self) -> (r: Vec<char>)
        ensures
            r@ == token(*self),
    {
        let r = match self {
            Self::ASuumo => vec![
                'あ',
                '\u{2757}',
                '\u{fe0f}',
                ' ',
                'ス',
                'ー',
                'モ',
                '\u{2757}',
                '\u{fe0f}',
                '\u{1f31a}',
            ],
            Self::Dan => vec!['ダ', 'ン', '\u{1f4a5}'],
            Self::Shaan => vec!['シ', 'ャ', 'ー', 'ン', '\u{1f3b6}'],
            Self::SumoFullMoon => vec!['ス', 'モ', '\u{1f31d}'],
            Self::SumoNewMoon => vec!['ス', 'モ', '\u{1f31a}'],
            Self::SuuuumoUp => vec!['ス', '〜', '〜', '〜', 'モ', '\u{2934}', '\u{1f31d}'],
            Self::SuuuumoDown => vec!['ス', '〜', '〜', '〜', 'モ', '\u{2935}', '\u{1f31d}'],
        };
        assert(r@ =~= token(*self));
        r
    }

    /// The symbol whose token is exactly `s`; an `UnknownToken` error carrying
    /// `s` where there is none. No trimming and no case folding.
    pub fn try_from(s: String) -> (r: Result<SuumoElement, DecodeError>)
        ensures
            match element_of_token(s@) {
                Some(e) => r == Ok::<SuumoElement, DecodeError>(e),
                None => r == Err::<SuumoElement, DecodeError>(DecodeError::UnknownToken(s)),
            },
    {
        let cs = chars_of(s.as_str());
        assert(cs@.subrange(0, cs@.len() as int) =~= s@);
        match element_of_chars(&cs, 0, cs.len()) {
            Some(e) => Ok(e),
            None => Err(DecodeError::UnknownToken(s)),
        }
    }
}

/// Distinct symbols have distinct tokens.
pub proof fn lemma_token_injective(a: SuumoElement, b: SuumoElement)
    ensures
        token(a) == token(b) ==> a == b,
{
    if token(a) == token(b) && a != b {
        let (ta, tb) = (token(a), token(b));
        assert(ta.len() == tb.len());
        assert(ta[0] == tb[0] && ta[1] == tb[1] && ta[2] == tb[2]);
        if ta.len() == 7 {
            assert(ta[5] == tb[5]);
        }
    }
}

/// Reading back the token of a symbol gives that symbol.
pub proof fn lemma_token_round_trip(e: SuumoElement)
    ensures
        element_of_token(token(e)) == Some(e),
{
    let t = token(e);
    assert forall|x: SuumoElement| t == token(x) implies x == e by {
        lemma_token_injective(x, e);
    }
}

} // verus!
