use liquid_core::Error;
use liquid_core::Expression;
use liquid_core::Runtime;
use liquid_core::Value;
use liquid_core::ValueCow;
use liquid_core::ValueView;
use liquid_cycle::error::render_failure;
use liquid_cycle::filter_chain::{filter_failure, rendered, Filter, FilterChain};
use liquid_cycle::text::{decimal, same_text};

#[derive(Debug)]
enum Sample {
    Upcase,
    Exclaim,
    Refuse,
}

impl Filter for Sample {
    fn evaluate(&self, input: &ValueCow<'_>, _runtime: &Runtime<'_>) -> Result<Value, Error> {
        match self {
            Sample::Upcase => Ok(Value::scalar(input.to_kstr().to_uppercase())),
            Sample::Exclaim => Ok(Value::scalar(format!("{}!", input.to_kstr()))),
            Sample::Refuse => Err(Error::with_msg("refused")),
        }
    }

    fn text(&self) -> String {
        match self {
            Sample::Upcase => "upcase".to_string(),
            Sample::Exclaim => "exclaim".to_string(),
            Sample::Refuse => "refuse: 1".to_string(),
        }
    }
}

#[test]
fn chain_without_filters_gives_the_entry() {
    let chain: FilterChain<Sample> = FilterChain::new(Expression::with_literal("abc"), vec![]);
    let runtime = Runtime::new();
    assert_eq!(chain.render(&runtime).unwrap(), "abc");
    assert_eq!(chain.evaluate(&runtime).unwrap().to_kstr(), "abc");
    assert!(matches!(chain.evaluate(&runtime).unwrap(), ValueCow::Borrowed(_)));
}

#[test]
fn filters_run_in_order() {
    let chain = FilterChain::new(
        Expression::with_literal("abc"),
        vec![Sample::Exclaim, Sample::Upcase],
    );
    let runtime = Runtime::new();
    assert_eq!(chain.render(&runtime).unwrap(), "ABC!");
    assert!(matches!(chain.evaluate(&runtime).unwrap(), ValueCow::Owned(_)));
    let other = FilterChain::new(
        Expression::with_literal("abc"),
        vec![Sample::Upcase, Sample::Exclaim, Sample::Exclaim],
    );
    assert_eq!(other.render(&runtime).unwrap(), "ABC!!");
}

#[test]
fn failing_filter_is_named_with_its_input() {
    let entry = Expression::with_literal("abc");
    let chain = FilterChain::new(entry, vec![Sample::Upcase, Sample::Refuse, Sample::Exclaim]);
    let runtime = Runtime::new();
    let report = chain.evaluate(&runtime).unwrap_err().to_string();
    let input = Value::scalar("ABC").source().to_string();
    assert!(report.contains("liquid: refused"));
    assert!(report.contains("from: Filter error"));
    assert!(report.contains("filter=refuse: 1"));
    assert!(report.contains(&format!("input={}", input)));
    assert!(chain.render(&runtime).is_err());
}

#[test]
fn failing_entry_is_not_a_filter_error() {
    let tag = liquid_core::parser::Tag::new("{% cycle missing %}").unwrap();
    let cycle = liquid_cycle::cycle::parse_cycle(tag.into_tokens()).unwrap();
    let entry = cycle.values()[0].clone();
    let chain = FilterChain::new(entry, vec![Sample::Upcase]);
    let runtime = Runtime::new();
    let report = chain.evaluate(&runtime).unwrap_err().to_string();
    assert!(report.contains("Unknown variable"));
    assert!(!report.contains("Filter error"));
}

#[test]
fn filter_failure_keeps_the_message_and_adds_two_annotations() {
    let cause = Error::with_msg("too long").context("limit", "3");
    let report = filter_failure(cause, "truncate: 3".to_string(), "\"abcd\"".to_string())
        .to_string();
    assert_eq!(
        report,
        "liquid: too long\n  with:\n    limit=3\nfrom: Filter error\n  with:\n    filter=truncate: 3\n    input=\"abcd\"\n"
    );
}

#[test]
fn chain_text_lists_entry_and_filters() {
    let entry = Expression::with_literal("abc");
    let shown = entry.to_string();
    let chain = FilterChain::new(entry, vec![Sample::Upcase, Sample::Refuse]);
    assert_eq!(chain.text(), format!("{} | upcase | refuse: 1", shown));
    let bare: FilterChain<Sample> = FilterChain::new(Expression::with_literal(5i32), vec![]);
    assert_eq!(bare.text(), "5 | ");
}

#[test]
fn render_failure_has_the_fixed_message() {
    assert_eq!(render_failure().to_string(), "liquid: Failed to render\n");
}

#[test]
fn same_text_compares_by_characters() {
    assert!(same_text(",", ","));
    assert!(!same_text(",", ":"));
    assert!(!same_text("", ","));
    assert!(same_text("", ""));
}

#[test]
fn rendered_shows_a_value_and_passes_an_error_on() {
    assert_eq!(rendered(Ok(ValueCow::Owned(Value::scalar("abc")))).unwrap(), "abc");
    assert_eq!(rendered(Ok(ValueCow::Owned(Value::scalar(5i32)))).unwrap(), "5");
    let cause = Error::with_msg("no value").context("name", "x");
    let report = rendered(Err(cause)).unwrap_err().to_string();
    assert_eq!(report, "liquid: no value\n  with:\n    name=x\n");
}

#[test]
fn decimal_writes_numerals() {
    assert_eq!(decimal(0), "0");
    assert_eq!(decimal(7), "7");
    assert_eq!(decimal(10), "10");
    assert_eq!(decimal(1234567890), "1234567890");
    assert_eq!(decimal(usize::MAX), usize::MAX.to_string());
}
