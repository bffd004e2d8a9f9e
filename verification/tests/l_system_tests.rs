use music_generator::l_system::Atom;
use music_generator::l_system::Axiom;
use music_generator::l_system::Rule;
use music_generator::l_system::RuleSet;

#[test]
fn create_and_display_atom_test() -> Result<(), String> {
    assert_eq!(
        Atom::from_string("A").map_err(|e| e.message())?.as_string(),
        "A"
    );
    assert_eq!(Atom::from_char('A').as_string(), "A");
    Ok(())
}

#[test]
fn create_empty_atom_test() {
    match Atom::from_string("") {
        Err(e) => assert_eq!(
            e.message(),
            "There was an Error with the Representation of an L-System Element: Atom is empty."
        ),
        Ok(_) => panic!("Created empty atom."),
    }
}

#[test]
fn create_overfull_atom_test() {
    match Atom::from_string("AABB") {
        Err(e) => assert_eq!(e.message(), "There was an Error with the Representation of an L-System Element: Atom contains more that one character."),
        Ok(_) => panic!("Created overfull atom."),
    }

    match Atom::from_string("AC") {
        Err(e) => assert_eq!(e.message(), "There was an Error with the Representation of an L-System Element: Atom contains more that one character."),
        Ok(_) => panic!("Created overfull atom."),
    }

    match Atom::from_string("CCC") {
        Err(e) => assert_eq!(e.message(), "There was an Error with the Representation of an L-System Element: Atom contains more that one character."),
        Ok(_) => panic!("Created overfull atom."),
    }
}

#[test]
fn create_and_display_axiom_test() -> Result<(), String> {
    assert_eq!(Axiom::from("ABA").map_err(|e| e.message())?.as_string(), "ABA");
    Ok(())
}

#[test]
fn create_empty_axiom_test() {
    match Axiom::from("") {
        Err(e) => assert_eq!(
            e.message(),
            "There was an Error with the Representation of an L-System Element: Axiom is empty."
        ),
        Ok(_) => panic!("Created empty axiom."),
    }
}

#[test]
fn create_and_display_rule_test() -> Result<(), String> {
    assert_eq!(Rule::from("A->ABA").map_err(|e| e.message())?.as_string(), "A->ABA");
    Ok(())
}

#[test]
fn create_rule_without_seperator() {
    const EXPECTED_ERROR_MESSAGE: &str = "There was an Error with the Representation of an L-System Element: Rule didn't contain a '->'.";

    match Rule::from("") {
        Err(e) => assert_eq!(e.message(), EXPECTED_ERROR_MESSAGE),
        Ok(_) => panic!("Created rule without seperator."),
    }

    match Rule::from("A ABA") {
        Err(e) => assert_eq!(e.message(), EXPECTED_ERROR_MESSAGE),
        Ok(_) => panic!("Created rule without seperator."),
    }

    match Rule::from("AABA") {
        Err(e) => assert_eq!(e.message(), EXPECTED_ERROR_MESSAGE),
        Ok(_) => panic!("Created rule without seperator."),
    }

    match Rule::from("A=>ABA") {
        Err(e) => assert_eq!(e.message(), EXPECTED_ERROR_MESSAGE),
        Ok(_) => panic!("Created rule without seperator."),
    }
}

#[test]
fn create_rule_with_empty_side_test() {
    match Rule::from("->ABA") {
        Err(e) => assert_eq!(
            e.message(),
            "There was an Error with the Representation of an L-System Element: Atom is empty."
        ),
        Ok(_) => panic!("Created rule with empty side."),
    }

    match Rule::from("->") {
        Err(e) => assert_eq!(
            e.message(),
            "There was an Error with the Representation of an L-System Element: Atom is empty."
        ),
        Ok(_) => panic!("Created rule with empty side."),
    }

    match Rule::from("A->") {
        Err(e) => assert_eq!(
            e.message(),
            "There was an Error with the Representation of an L-System Element: Axiom is empty."
        ),
        Ok(_) => panic!("Created rule with empty side."),
    }
}

#[test]
fn create_rule_with_overfull_atom() {
    match Rule::from("AB->ABA") {
        Err(e) => assert_eq!(e.message(), "There was an Error with the Representation of an L-System Element: Atom contains more that one character."),
        Ok(_) => panic!("Created rule with overfull atom."),
    }

    match Rule::from("ABA->ABA") {
        Err(e) => assert_eq!(e.message(), "There was an Error with the Representation of an L-System Element: Atom contains more that one character."),
        Ok(_) => panic!("Created rule with overfull atom."),
    }
}

#[test]
fn create_and_display_ruleset_test() -> Result<(), String> {
    assert_eq!(
        RuleSet::from(vec![Rule::from("A->ABA").map_err(|e| e.message())?])
            .map_err(|e| e.message())?
            .as_string(),
        "A->ABA"
    );
    assert_eq!(
        RuleSet::from(vec![
            Rule::from("A->ABA").map_err(|e| e.message())?,
            Rule::from("B->BAB").map_err(|e| e.message())?
        ])
        .map_err(|e| e.message())?
        .as_string(),
        "A->ABA, B->BAB"
    );
    Ok(())
}

#[test]
fn create_ruleset_with_same_axioms_test() {
    match RuleSet::from(vec![
        Rule::from("A->ABA").unwrap(),
        Rule::from("A->BAB").unwrap(),
    ]) {
        Err(e) => assert_eq!(
            e.message(),
            "There was an Error with the Representation of an L-System Element: RuleSet contains two Rules with the lhs-Atom 'A'."
        ),
        Ok(_) => panic!("Created ruleset with same axioms side."),
    }
}

#[test]
fn apply_rule_to_axiom_test() -> Result<(), String> {
    let mut ax: Axiom = Axiom::from("ABA").map_err(|e| e.message())?;
    let rule: Rule = Rule::from("A->ABA").map_err(|e| e.message())?;
    ax.apply(&rule);

    assert_eq!(ax.as_string(), "ABABABA");

    Ok(())
}

#[test]
fn apply_ruleset_to_axiom_test() -> Result<(), String> {
    let mut ax: Axiom = Axiom::from("ABA").map_err(|e| e.message())?;
    let ruleset: RuleSet = RuleSet::from(vec![
        Rule::from("A->ABA").map_err(|e| e.message())?,
        Rule::from("B->BAB").map_err(|e| e.message())?,
    ])
    .map_err(|e| e.message())?;
    ax.apply_ruleset(&ruleset);

    assert_eq!(ax.as_string(), "ABABABABA");

    Ok(())
}

#[test]
fn dragon_curve_test() -> Result<(), String> {
    let mut ax: Axiom = Axiom::from("FL").map_err(|e| e.message())?;
    let ruleset: RuleSet = RuleSet::from(vec![
        Rule::from("L->L+KF").map_err(|e| e.message())?,
        Rule::from("K->FL-K").map_err(|e| e.message())?,
    ])
    .map_err(|e| e.message())?;

    ax.apply_ruleset(&ruleset);
    assert_eq!(ax.as_string(), "FL+KF");

    ax.apply_ruleset(&ruleset);
    assert_eq!(ax.as_string(), "FL+KF+FL-KF");

    ax.apply_ruleset(&ruleset);
    assert_eq!(ax.as_string(), "FL+KF+FL-KF+FL+KF-FL-KF");

    Ok(())
}

#[test]
fn l_system_create_and_display_atom_test() -> Result<(), String> {
    assert_eq!(
        Atom::from_string("A").map_err(|e| e.message())?.as_string(),
        "A"
    );
    assert_eq!(Atom::from_char('A').as_string(), "A");
    Ok(())
}

#[test]
fn l_system_create_empty_atom_test() {
    match Atom::from_string("") {
        Err(e) => assert_eq!(
            e.message(),
            "There was an Error with the Representation of an L-System Element: Atom is empty."
        ),
        Ok(_) => panic!("Created empty atom."),
    }
}

#[test]
fn l_system_create_overfull_atom_test() {
    match Atom::from_string("AABB") {
        Err(e) => assert_eq!(e.message(), "There was an Error with the Representation of an L-System Element: Atom contains more that one character."),
        Ok(_) => panic!("Created overfull atom."),
    }

    match Atom::from_string("AC") {
        Err(e) => assert_eq!(e.message(), "There was an Error with the Representation of an L-System Element: Atom contains more that one character."),
        Ok(_) => panic!("Created overfull atom."),
    }

    match Atom::from_string("CCC") {
        Err(e) => assert_eq!(e.message(), "There was an Error with the Representation of an L-System Element: Atom contains more that one character."),
        Ok(_) => panic!("Created overfull atom."),
    }
}

#[test]
fn l_system_create_and_display_axiom_test() -> Result<(), String> {
    assert_eq!(Axiom::from("ABA").map_err(|e| e.message())?.as_string(), "ABA");
    Ok(())
}

#[test]
fn l_system_apply_rule_to_axiom_test() -> Result<(), String> {
    let mut ax: Axiom = Axiom::from("ABA").map_err(|e| e.message())?;
    let rule: Rule = Rule::from("A->ABA").map_err(|e| e.message())?;
    ax.apply(&rule);

    assert_eq!(ax.as_string(), "ABABABA");

    Ok(())
}

#[test]
fn trimmed_rule_sides_parse() -> Result<(), String> {
    let rule = Rule::from("  A  ->  BC  ").map_err(|e| e.message())?;
    assert_eq!(rule.as_string(), "A->BC");
    Ok(())
}

#[test]
fn apply_ruleset_length_matches_replacements() -> Result<(), String> {
    // Each of the three As becomes three atoms and each of the two Bs
    // stays one atom: 3 * 3 + 2 * 1 = 11.
    let mut ax: Axiom = Axiom::from("ABABA").map_err(|e| e.message())?;
    let ruleset: RuleSet =
        RuleSet::from(vec![Rule::from("A->ABA").map_err(|e| e.message())?])
            .map_err(|e| e.message())?;
    ax.apply_ruleset(&ruleset);
    assert_eq!(ax.atoms().len(), 11);
    assert_eq!(ax.as_string(), "ABABABABABA");
    Ok(())
}
