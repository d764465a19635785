//! The phenotype definition language, errors, and simulation bookkeeping.

use phenics::config::{parse_unpack, subcommand_problem};
use phenics::error::{none_to_error, Error, ErrorKind};
use phenics::locus::Locus;
use phenics::phenotype::parse::tokenize::{tokenize, Token, Value};
use phenics::phenotype::parse::{cannot_parse, parse, parse_names, parse_sim};
use phenics::phenotype::pheno_sim::{Category, MyDistribution};
use phenics::sim::io::{ensure_u64_at, ensure_value, missing, split_fields};
use phenics::sim::{check_same_size_as_samples, merged_phenotype_names};
use phenics::stats::sample_stats::SampleStats;

fn token_text(token: &Token) -> (bool, String) {
    match token {
        Token::Value(Value::Num(text)) => (true, text.clone()),
        Token::Value(Value::Str(text)) => (false, text.clone()),
        Token::OpenParens => (false, String::from("(")),
        Token::CloseParen => (false, String::from(")")),
        Token::Comma => (false, String::from(",")),
    }
}

#[test]
fn tokenize_splits_calls_and_values() {
    let tokens = tokenize("norm(0,1),0.5").unwrap();
    let texts: Vec<(bool, String)> = tokens.iter().map(token_text).collect();
    assert_eq!(
        texts,
        vec![
            (false, String::from("norm")),
            (false, String::from("(")),
            (true, String::from("0")),
            (false, String::from(",")),
            (true, String::from("1")),
            (false, String::from(")")),
            (false, String::from(",")),
            (true, String::from("0.5")),
        ]
    );
}

#[test]
fn tokenize_classifies_number_literals() {
    for text in ["1", "0.5", ".5", "5.", "-3", "+4.25", "1e5", "1.2E-3", "inf", "Infinity", "NaN", "-inf"] {
        let tokens = tokenize(text).unwrap();
        assert_eq!(tokens.len(), 1, "{text}");
        assert!(
            matches!(&tokens[0], Token::Value(Value::Num(_))),
            "{text} should be a number"
        );
    }
    for text in ["abc", "1e", "e5", "1.2.3", ".", "+", "infx", "1-2"] {
        let tokens = tokenize(text).unwrap();
        assert!(
            matches!(&tokens[0], Token::Value(Value::Str(_))),
            "{text} should not be a number"
        );
    }
}

#[test]
fn parse_builds_a_normal_phenotype() {
    let phenotypes = parse("phi=norm(0,1),0.5").unwrap();
    assert_eq!(phenotypes.len(), 1);
    assert_eq!(phenotypes[0].name, "phi");
    let sim = &phenotypes[0].sim;
    assert_eq!(sim.heritability, "0.5");
    assert!(matches!(&sim.category, Category::Quantitative));
    match &sim.effect_distribution {
        MyDistribution::Norm(mean, std_dev) => {
            assert_eq!(mean, "0");
            assert_eq!(std_dev, "1");
        }
        other => panic!("expected a normal distribution, got {other:?}"),
    }
}

#[test]
fn parse_expands_numbered_names() {
    let phenotypes = parse("p[3]=1,0.5").unwrap();
    let names: Vec<&str> = phenotypes.iter().map(|p| p.name.as_str()).collect();
    assert_eq!(names, vec!["p0", "p1", "p2"]);
    for phenotype in &phenotypes {
        assert!(matches!(
            &phenotype.sim.effect_distribution,
            MyDistribution::Stuck(v) if v == "1"
        ));
    }
}

#[test]
fn parse_names_handles_both_forms() {
    let plain = parse_names("alpha").unwrap();
    assert_eq!(plain, vec!["alpha"]);
    let numbered = parse_names("q[2]").unwrap();
    assert_eq!(numbered, vec!["q0", "q1"]);
    assert_eq!(
        parse_names("q]").unwrap_err().kind,
        ErrorKind::Phenics
    );
    assert_eq!(
        parse_names("q[x]").unwrap_err().kind,
        ErrorKind::ParseInt
    );
}

#[test]
fn parse_builds_a_binary_pick_phenotype() {
    let phenotypes = parse("x=pick(0.4,norm(0,1),0.6,2.5),0.8,bin(0.3,yes,no)").unwrap();
    let sim = &phenotypes[0].sim;
    assert_eq!(sim.heritability, "0.8");
    match &sim.category {
        Category::Binary(binary) => {
            assert_eq!(binary.prevalence, "0.3");
            assert_eq!(binary.case, "yes");
            assert_eq!(binary.control, "no");
        }
        other => panic!("expected a binary category, got {other:?}"),
    }
    match &sim.effect_distribution {
        MyDistribution::Pick(entries) => {
            assert_eq!(entries.len(), 2);
            assert_eq!(entries[0].weight, "0.4");
            assert!(matches!(&entries[0].distribution, MyDistribution::Norm(_, _)));
            assert_eq!(entries[1].weight, "0.6");
            assert!(matches!(
                &entries[1].distribution,
                MyDistribution::Stuck(v) if v == "2.5"
            ));
        }
        other => panic!("expected a pick distribution, got {other:?}"),
    }
}

#[test]
fn bin_labels_default_to_case_and_control() {
    let phenotypes = parse("x=1,0.5,bin(0.1)").unwrap();
    match &phenotypes[0].sim.category {
        Category::Binary(binary) => {
            assert_eq!(binary.case, "case");
            assert_eq!(binary.control, "control");
        }
        other => panic!("expected a binary category, got {other:?}"),
    }
}

#[test]
fn numbered_names_share_one_simulation() {
    let phenotypes = parse("a[2]=pick(1,norm(0,1),1,2),0.5").unwrap();
    assert_eq!(phenotypes.len(), 2);
    for phenotype in &phenotypes {
        match &phenotype.sim.effect_distribution {
            MyDistribution::Pick(entries) => assert_eq!(entries.len(), 2),
            other => panic!("expected a pick distribution, got {other:?}"),
        }
    }
}

#[test]
fn zero_count_names_declare_nothing() {
    let phenotypes = parse("q[0]=1,0.5").unwrap();
    assert!(phenotypes.is_empty());
}

#[test]
fn parse_rejects_malformed_lines() {
    assert_eq!(parse("x").unwrap_err().kind, ErrorKind::Phenics);
    let error = parse("a=b=c").unwrap_err();
    assert_eq!(error.kind, ErrorKind::Phenics);
    assert_eq!(error.message, "Cannot parse a=b=c: More than one '='.");
    assert_eq!(parse("x=norm(0),0.5").unwrap_err().kind, ErrorKind::Phenics);
    assert_eq!(parse("x=norm(0,1)").unwrap_err().kind, ErrorKind::Phenics);
    assert_eq!(parse("x=pick(1,2),0.5").unwrap_err().kind, ErrorKind::Phenics);
    assert_eq!(parse("x=(1),0.5").unwrap_err().kind, ErrorKind::Phenics);
    assert_eq!(parse("x=1,0.5,(").unwrap_err().kind, ErrorKind::Phenics);
    assert_eq!(parse("x=norm(0,1,0.5").unwrap_err().kind, ErrorKind::Phenics);
}

#[test]
fn simple_constant_definition_parses() {
    let sim = parse_sim("1,2").unwrap();
    assert!(matches!(&sim.effect_distribution, MyDistribution::Stuck(v) if v == "1"));
    assert_eq!(sim.heritability, "2");
}

#[test]
fn error_chain_renders_with_kinds() {
    let inner = Error::new(ErrorKind::IO, String::from("inner"));
    let outer = Error::new_wrap(ErrorKind::Phenics, String::from("outer"), Some(Box::new(inner)));
    assert_eq!(outer.render(), "Phenics: outer: IO: inner\n");
    assert_eq!(ErrorKind::Reqwest.as_str(), "Reqwest");
    assert_eq!(ErrorKind::Unknown.as_str(), "[unknown error type]");
}

#[test]
fn option_helpers_report_their_errors() {
    assert_eq!(none_to_error(Some(7), "m").unwrap(), 7);
    let error = none_to_error::<u8>(None, "needs a value").unwrap_err();
    assert_eq!(error.kind, ErrorKind::Phenics);
    assert_eq!(error.message, "needs a value");
    assert_eq!(missing("n_records").message, "Missing `n_records`");
    assert_eq!(ensure_value(Some("x")).unwrap(), "x");
    assert!(ensure_value(None).is_err());
    assert_eq!(ensure_u64_at(Some("12"), "s1").unwrap(), 12);
    assert_eq!(ensure_u64_at(Some("x"), "s1").unwrap_err().kind, ErrorKind::ParseInt);
    assert_eq!(ensure_u64_at(None, "s1").unwrap_err().kind, ErrorKind::Phenics);
    assert_eq!(
        cannot_parse("line", "problem").message,
        "Cannot parse line: problem"
    );
}

#[test]
fn split_fields_keeps_empty_runs() {
    let fields = split_fields("a\tb\t\tc", '\t');
    assert_eq!(fields, vec!["a", "b", "", "c"]);
    assert_eq!(split_fields("x", '\t'), vec!["x"]);
    assert_eq!(split_fields("", ','), vec![""]);
}

#[test]
fn merged_names_demand_equality() {
    let a = vec![String::from("p"), String::from("q")];
    let b = vec![String::from("p"), String::from("q")];
    assert_eq!(merged_phenotype_names(&a, &b).unwrap(), vec!["p", "q"]);
    let c = vec![String::from("p"), String::from("r")];
    let error = merged_phenotype_names(&a, &c).unwrap_err();
    assert_eq!(error.kind, ErrorKind::Phenics);
    assert_eq!(
        error.message,
        "Need to have the same phenotypes, but got 'q' versus 'r'."
    );
    let short = vec![String::from("p")];
    assert!(merged_phenotype_names(&a, &short).is_err());
}

#[test]
fn sample_counts_must_match() {
    let locus = Locus::new(String::from("chr1"), 5);
    assert!(check_same_size_as_samples(3, 3, &locus, "genotypes").is_ok());
    let error = check_same_size_as_samples(2, 3, &locus, "genotypes").unwrap_err();
    assert_eq!(
        error.message,
        "At chr1:5, got 2 genotypes, but have 3 samples."
    );
}

#[test]
fn sample_stats_merge_adds_counts() {
    let mut stats = SampleStats::new();
    let mut other = SampleStats::new();
    other.n_unknown_alleles = 4;
    stats.merge(&other);
    stats.merge(&other);
    assert_eq!(stats.n_unknown_alleles, 8);
}

#[test]
fn command_helpers_build_their_messages() {
    let error = subcommand_problem("Missing subcommand").unwrap_err();
    assert_eq!(
        error.message,
        "Missing subcommand. Available are 'check', 'vcf', 'merge', 'render', 'download', \
         'tabix' and 'sample'."
    );
    assert_eq!(parse_unpack(None).unwrap(), None);
    assert_eq!(parse_unpack(Some("42")).unwrap(), Some(42));
    assert_eq!(parse_unpack(Some("4x")).unwrap_err().kind, ErrorKind::ParseInt);
}
