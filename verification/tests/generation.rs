use domain_resolver::DomainGenerator;

fn generator(top: &str) -> DomainGenerator {
    DomainGenerator::new(String::from("names.txt"), String::from(top))
}

fn lines(words: &[&str]) -> Vec<String> {
    words.iter().map(|w| String::from(*w)).collect()
}

#[test]
fn scenario_mixed_lines_under_com() {
    let g = generator("com");
    let out = g.words_to_domains(&lines(&["google", "", "thisisnotarealdomain12345xyz", "a"]));
    assert_eq!(out.len(), 2);
    assert_eq!(out[0], "google.com");
    assert_eq!(out[1], "thisisnotarealdomain12345xyz.com");
}

#[test]
fn empty_lines_are_skipped_not_errors() {
    let g = generator("com");
    let out = g.words_to_domains(&lines(&["", "", ""]));
    assert!(out.is_empty());
}

#[test]
fn order_and_multiplicity_follow_the_input() {
    let g = generator("net");
    let out = g.words_to_domains(&lines(&["alpha", "beta", "alpha", "x", "gamma"]));
    assert_eq!(out, vec![
        String::from("alpha.net"),
        String::from("beta.net"),
        String::from("alpha.net"),
        String::from("gamma.net"),
    ]);
}

#[test]
fn single_character_fragment_is_rejected() {
    let g = generator("com");
    assert!(!g.valid_domain(&String::from("a.com")));
    let out = g.words_to_domains(&lines(&["a"]));
    assert!(out.is_empty());
}

#[test]
fn minimum_accepted_fragment_has_three_characters() {
    let g = generator("co");
    // The label before the dot needs an alphanumeric at both ends and at
    // least one interior character, so two characters are still too few.
    assert!(!g.valid_domain(&String::from("ab.co")));
    assert!(g.valid_domain(&String::from("abc.co")));
    let out = g.words_to_domains(&lines(&["ab", "abc"]));
    assert_eq!(out, vec![String::from("abc.co")]);
}

#[test]
fn hyphens_allowed_inside_but_not_at_the_edges() {
    let g = generator("com");
    assert!(g.valid_domain(&String::from("a-b.com")));
    assert!(g.valid_domain(&String::from("a--b.com")));
    assert!(!g.valid_domain(&String::from("-ab.com")));
    assert!(!g.valid_domain(&String::from("ab-.com")));
}

#[test]
fn top_level_domain_must_be_two_or_more_letters() {
    let g = generator("com");
    assert!(!g.valid_domain(&String::from("abc.c")));
    assert!(g.valid_domain(&String::from("abc.co")));
    assert!(!g.valid_domain(&String::from("abc.c0m")));
    assert!(!g.valid_domain(&String::from("abc.")));
}

#[test]
fn label_length_caps_at_sixty_two() {
    let g = generator("com");
    let label62 = "a".repeat(62);
    let label63 = "a".repeat(63);
    assert!(g.valid_domain(&format!("{}.com", label62)));
    assert!(!g.valid_domain(&format!("{}.com", label63)));
}

#[test]
fn validation_is_idempotent() {
    let g = generator("com");
    for s in ["google.com", "a.com", "", "x.y.z", "abc.co", "-a-.org"] {
        let first = g.valid_domain(&String::from(s));
        let second = g.valid_domain(&String::from(s));
        assert_eq!(first, second);
    }
}

#[test]
fn validation_agrees_with_the_reference_pattern() {
    let pattern = regex::Regex::new(r"^[a-zA-Z0-9][a-zA-Z0-9-]{1,60}[a-zA-Z0-9]\.[a-zA-Z]{2,}$")
        .unwrap();
    let g = generator("com");
    let label62 = "a".repeat(62);
    let label63 = "a".repeat(63);
    let candidates = vec![
        String::from("google.com"),
        String::from("a.com"),
        String::from("ab.co"),
        String::from("abc.co"),
        String::from("abc.c"),
        String::from("abc.c0m"),
        String::from("a-b.com"),
        String::from("-ab.com"),
        String::from("ab-.com"),
        String::from("a.b.com"),
        String::from("ab..com"),
        String::from(".abc.com"),
        String::from("abc.com."),
        String::from("héllo.com"),
        String::from("ABC.COM"),
        String::from("123.com"),
        String::from("a_b.com"),
        String::from(""),
        String::from("..."),
        String::from("noperiod"),
        format!("{}.com", label62),
        format!("{}.com", label63),
    ];
    for c in &candidates {
        assert_eq!(g.valid_domain(c), pattern.is_match(c), "disagreement on {:?}", c);
    }
}
