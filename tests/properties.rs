use suumo_gen::{try_string_to_suumo_elements, DecodeError, SuumoElement, SuumoState};

fn every_element() -> Vec<SuumoElement> {
    (0..7u8).map(SuumoElement::from_index).collect()
}

fn every_state() -> Vec<SuumoState> {
    vec![
        SuumoState::S0,
        SuumoState::S1,
        SuumoState::S2,
        SuumoState::S3,
        SuumoState::S4,
        SuumoState::S5,
        SuumoState::S6,
        SuumoState::S7,
        SuumoState::S8,
        SuumoState::S9,
        SuumoState::S10,
        SuumoState::S11,
        SuumoState::S12,
        SuumoState::S13,
        SuumoState::S14,
        SuumoState::S15,
        SuumoState::S16,
        SuumoState::S17,
        SuumoState::S18,
        SuumoState::S19,
    ]
}

fn pattern() -> Vec<SuumoElement> {
    vec![
        SuumoElement::ASuumo,
        SuumoElement::Dan,
        SuumoElement::Dan,
        SuumoElement::Dan,
        SuumoElement::Shaan,
        SuumoElement::SumoFullMoon,
        SuumoElement::SumoNewMoon,
        SuumoElement::SumoFullMoon,
        SuumoElement::SumoNewMoon,
        SuumoElement::SumoFullMoon,
        SuumoElement::SumoNewMoon,
        SuumoElement::SuuuumoUp,
        SuumoElement::SumoNewMoon,
        SuumoElement::SumoFullMoon,
        SuumoElement::SumoNewMoon,
        SuumoElement::SumoFullMoon,
        SuumoElement::SumoNewMoon,
        SuumoElement::SumoFullMoon,
        SuumoElement::SuuuumoDown,
    ]
}

fn concat(es: &[SuumoElement]) -> String {
    es.iter().map(|e| e.to_string()).collect()
}

#[test]
fn transition_table_is_exhaustive() {
    let states = every_state();
    let pattern = pattern();
    for k in 0..19 {
        for e in every_element() {
            let mut s = states[k];
            let expected = if e == pattern[k] {
                states[k + 1]
            } else if e == SuumoElement::ASuumo {
                SuumoState::S1
            } else {
                SuumoState::S0
            };
            assert_eq!(s.next_with_suumo_element(e), Some(expected));
            assert_eq!(s, expected);
        }
    }
}

#[test]
fn terminal_state_takes_nothing() {
    for e in every_element() {
        let mut s = SuumoState::S19;
        assert_eq!(s.next_with_suumo_element(e), None);
        assert_eq!(s, SuumoState::S19);
    }
    let mut s = SuumoState::S19;
    assert_eq!(s.next(), None);
    assert_eq!(s.collect_to_string(), "");
    assert_eq!(s.collect_to_string_nth(5), "");
    assert_eq!(s.collect_to_string_with_suumo_elements(pattern()), "");
}

#[test]
fn token_round_trip() {
    for e in every_element() {
        assert_eq!(SuumoElement::try_from(e.to_string()), Ok(e));
    }
}

#[test]
fn tokens_are_distinct() {
    let all = every_element();
    for a in &all {
        for b in &all {
            assert_eq!(a.to_string() == b.to_string(), a == b);
        }
    }
}

#[test]
fn decode_round_trip() {
    assert_eq!(try_string_to_suumo_elements(String::new()), Ok(vec![]));
    let p = pattern();
    assert_eq!(try_string_to_suumo_elements(concat(&p)), Ok(p.clone()));
    let all = every_element();
    for a in &all {
        for b in &all {
            let es = vec![*a, *b, *a];
            assert_eq!(try_string_to_suumo_elements(concat(&es)), Ok(es));
        }
    }
}

#[test]
fn decode_unknown_leading_codepoint() {
    assert_eq!(
        try_string_to_suumo_elements("abc".to_string()),
        Err(DecodeError::MalformedToken("abc".to_string()))
    );
    assert_eq!(
        try_string_to_suumo_elements("ダン💥x".to_string()),
        Err(DecodeError::MalformedToken("x".to_string()))
    );
}

#[test]
fn decode_second_codepoint_of_su_family() {
    assert_eq!(
        try_string_to_suumo_elements("ス".to_string()),
        Err(DecodeError::MalformedToken("ス".to_string()))
    );
    assert_eq!(
        try_string_to_suumo_elements("スーモ".to_string()),
        Err(DecodeError::MalformedToken("スーモ".to_string()))
    );
}

#[test]
fn decode_unknown_token() {
    assert_eq!(
        try_string_to_suumo_elements("ダンX".to_string()),
        Err(DecodeError::UnknownToken("ダンX".to_string()))
    );
    assert_eq!(
        try_string_to_suumo_elements("スモ🌝スモ🌕".to_string()),
        Err(DecodeError::UnknownToken("スモ🌕".to_string()))
    );
    assert_eq!(
        SuumoElement::try_from(" ダン💥".to_string()),
        Err(DecodeError::UnknownToken(" ダン💥".to_string()))
    );
}

#[test]
fn decode_truncated_token_fails() {
    for e in every_element() {
        let chars: Vec<char> = e.to_string().chars().collect();
        for k in 1..chars.len() {
            let cut: String = chars[..k].iter().collect();
            assert!(try_string_to_suumo_elements(cut.clone()).is_err(), "{cut}");
            let after = format!("{}{}", concat(&pattern()), cut);
            assert!(try_string_to_suumo_elements(after).is_err());
        }
    }
}

#[test]
fn error_message() {
    assert_eq!(
        DecodeError::UnknownToken("ダンX".to_string()).message(),
        "Invalid string: ダンX"
    );
    assert_eq!(DecodeError::MalformedToken("abc".to_string()).message(), "Invalid string: abc");
}

#[test]
fn pattern_reaches_terminal_state() {
    let states = every_state();
    let mut s = SuumoState::new();
    for (k, e) in pattern().into_iter().enumerate() {
        assert_eq!(s.next_with_suumo_element(e), Some(states[k + 1]));
    }
    for e in every_element() {
        assert_eq!(s.next_with_suumo_element(e), None);
    }
}

#[test]
fn dan_dan_from_start_resets() {
    let mut s = SuumoState::new();
    let got: Vec<_> = [SuumoElement::Dan, SuumoElement::Dan]
        .into_iter()
        .map(|e| s.next_with_suumo_element(e))
        .collect();
    assert_eq!(got, vec![Some(SuumoState::S0), Some(SuumoState::S0)]);
}

#[test]
fn asuumo_then_shaan_resets() {
    let mut s = SuumoState::new();
    let got: Vec<_> = [SuumoElement::ASuumo, SuumoElement::Shaan]
        .into_iter()
        .map(|e| s.next_with_suumo_element(e))
        .collect();
    assert_eq!(got, vec![Some(SuumoState::S1), Some(SuumoState::S0)]);
}

#[test]
fn anchor_restarts_a_partial_match() {
    let mut s = SuumoState::S4;
    assert_eq!(s.next_with_suumo_element(SuumoElement::ASuumo), Some(SuumoState::S1));
    let mut s = SuumoState::S0;
    assert_eq!(s.next_with_suumo_element(SuumoElement::ASuumo), Some(SuumoState::S1));
}

#[test]
fn bounded_run_over_a_list() {
    let p = pattern();
    let mut s = SuumoState::new();
    assert_eq!(s.collect_to_string_with_suumo_elements_nth(0, p.clone()), "");
    assert_eq!(s, SuumoState::S0);

    let mut s = SuumoState::new();
    assert_eq!(s.collect_to_string_with_suumo_elements_nth(3, p.clone()), concat(&p[..3]));
    assert_eq!(s, SuumoState::S3);

    let mut s = SuumoState::new();
    assert_eq!(s.collect_to_string_with_suumo_elements_nth(100, p.clone()), concat(&p));
    assert_eq!(s, SuumoState::S19);

    let mut longer = p.clone();
    longer.push(SuumoElement::Dan);
    let mut s = SuumoState::new();
    assert_eq!(s.collect_to_string_with_suumo_elements(longer.clone()), concat(&p));
    assert_eq!(s, SuumoState::S19);
    let mut s = SuumoState::new();
    assert_eq!(s.collect_to_string_with_suumo_elements_nth(25, longer), concat(&p));
}

#[test]
fn bounded_random_run() {
    let mut s = SuumoState::new();
    assert_eq!(s.collect_to_string_nth(0), "");
    assert_eq!(s, SuumoState::S0);
    for n in [1usize, 7, 40] {
        let mut s = SuumoState::new();
        let out = s.collect_to_string_nth(n);
        let es = try_string_to_suumo_elements(out).unwrap();
        assert!(es.len() <= n);
        let mut replay = SuumoState::new();
        for e in &es {
            assert!(replay.next_with_suumo_element(*e).is_some());
        }
        assert_eq!(replay, s);
        assert!(es.len() == n || s == SuumoState::S19);
    }
}

#[test]
fn random_draws_vary() {
    let drawn: Vec<SuumoElement> = (0..300).map(|_| SuumoElement::new()).collect();
    let first = drawn[0];
    assert!(drawn.iter().any(|e| *e != first));
    let mut s = SuumoState::S18;
    match s.next() {
        Some((t, e)) => {
            let mut again = SuumoState::S18;
            assert_eq!(again.next_with_suumo_element(e), Some(t));
            assert_eq!(s, t);
        }
        None => panic!("S18 is not terminal"),
    }
}

#[test]
fn from_index_follows_declaration_order() {
    assert_eq!(
        every_element(),
        vec![SuumoElement::ASuumo, SuumoElement::Dan, SuumoElement::Shaan, SuumoElement::SumoFullMoon, SuumoElement::SumoNewMoon, SuumoElement::SuuuumoUp, SuumoElement::SuuuumoDown]
    );
}
