use liquid_core::parser::Tag;
use liquid_core::Runtime;
use liquid_core::Value;
use liquid_cycle::cycle::{parse_cycle, Cycle, CycleTag, SyntaxKind};
use liquid_cycle::state::State;
use liquid_cycle::text::can_read;

fn parsed(text: &str) -> Cycle {
    let tag = Tag::new(text).unwrap();
    parse_cycle(tag.into_tokens()).unwrap()
}

fn rejected(text: &str) -> SyntaxKind {
    let tag = Tag::new(text).unwrap();
    match parse_cycle(tag.into_tokens()) {
        Ok(_) => panic!("accepted: {}", text),
        Err(e) => {
            assert!(!e.cause.to_string().is_empty());
            assert!(!e.cause.to_string().contains("from:"));
            assert!(!e.cause.to_string().contains("with:"));
            e.kind
        }
    }
}

fn render_lines(lines: &[&str], runtime: &mut Runtime<'_>) -> Result<String, liquid_core::Error> {
    let mut output = String::new();
    for line in lines {
        let text = line.trim_end_matches('\n');
        let cycle = CycleTag::new().parse(Tag::new(text).unwrap().into_tokens()).unwrap();
        assert!(!cycle.values().is_empty());
        output.push_str(&cycle.render(runtime)?);
        output.push('\n');
    }
    Ok(output)
}

#[test]
fn unnamed_cycle_gets_a_name() {
    let tag = Tag::new("{% cycle this, cycle, has, no, name %}").unwrap();
    let cycle = parse_cycle(tag.into_tokens()).unwrap();
    assert!(!cycle.name().is_empty());
}

#[test]
fn named_values_are_independent() {
    let text = [
        "{% cycle 'a': 'one', 'two', 'three' %}\n",
        "{% cycle 'a': 'one', 'two', 'three' %}\n",
        "{% cycle 'b': 'one', 'two', 'three' %}\n",
        "{% cycle 'b': 'one', 'two', 'three' %}\n",
    ];
    let mut runtime = Runtime::new();
    let output = render_lines(&text, &mut runtime);

    assert_eq!(output.unwrap(), "one\ntwo\none\ntwo\n");
}

#[test]
fn values_are_cycled() {
    let text = [
        "{% cycle 'one', 'two', 'three' %}\n",
        "{% cycle 'one', 'two', 'three' %}\n",
        "{% cycle 'one', 'two', 'three' %}\n",
        "{% cycle 'one', 'two', 'three' %}\n",
    ];
    let mut runtime = Runtime::new();
    let output = render_lines(&text, &mut runtime);

    assert_eq!(output.unwrap(), "one\ntwo\nthree\none\n");
}

#[test]
fn values_can_be_variables() {
    let text = [
        "{% cycle alpha, beta, gamma %}\n",
        "{% cycle alpha, beta, gamma %}\n",
        "{% cycle alpha, beta, gamma %}\n",
        "{% cycle alpha, beta, gamma %}\n",
    ];
    let mut runtime = Runtime::new();
    runtime.stack_mut().set_global("alpha", Value::scalar(1f64));
    runtime.stack_mut().set_global("beta", Value::scalar(2f64));
    runtime.stack_mut().set_global("gamma", Value::scalar(3f64));

    let output = render_lines(&text, &mut runtime);

    assert_eq!(output.unwrap(), "1\n2\n3\n1\n");
}

#[test]
fn bad_cycle_indices_dont_crash() {
    // note the pair of cycle tags with the same name but a differing
    // number of elements
    let text = ["{% cycle c: 1, 2 %}\n", "{% cycle c: 1 %}\n"];

    let output = render_lines(&text, &mut Default::default());
    assert!(output.is_err());
}

#[test]
fn mismatched_reuse_reports_index_and_count() {
    let mut runtime = Runtime::new();
    let long = parsed("{% cycle c: 1, 2 %}");
    let short = parsed("{% cycle c: 1 %}");
    assert_eq!(long.render(&mut runtime).unwrap(), "1");
    let report = short.render(&mut runtime).unwrap_err().to_string();
    assert!(report.contains("cycle index out of bounds, most likely from mismatched cycles"));
    assert!(report.contains("index=1"));
    assert!(report.contains("count=1"));
    assert!(report.contains("from: {% cycle 1 %}"));
    // the counter has moved on all the same: (1 + 1) mod 1 = 0
    assert_eq!(short.render(&mut runtime).unwrap(), "1");
}

#[test]
fn live_context_is_read_on_each_render() {
    let mut runtime = Runtime::new();
    let cycle = parsed("{% cycle alpha %}");
    runtime.stack_mut().set_global("alpha", Value::scalar(1f64));
    assert_eq!(cycle.render(&mut runtime).unwrap(), "1");
    runtime.stack_mut().set_global("alpha", Value::scalar(7f64));
    assert_eq!(cycle.render(&mut runtime).unwrap(), "7");
}

#[test]
fn unknown_variable_is_traced_with_the_cycle() {
    let mut runtime = Runtime::new();
    let cycle = parsed("{% cycle alpha, beta %}");
    let report = cycle.render(&mut runtime).unwrap_err().to_string();
    assert!(report.contains("Unknown variable"));
    assert!(report.contains("from: {% cycle alpha, beta %}"));
}

#[test]
fn anonymous_name_joins_the_candidates() {
    let cycle = parsed("{% cycle this, cycle, has, no, name %}");
    assert_eq!(cycle.name(), "this-cycle-has-no-name");
    assert_eq!(cycle.values().len(), 5);

    let literal = parsed("{% cycle 'a', 'b', 'c' %}");
    let shown: Vec<String> = literal.values().iter().map(|v| v.to_string()).collect();
    assert_eq!(literal.name(), shown.join("-"));
    assert!(literal.name().contains('-'));
}

#[test]
fn anonymous_cycles_with_the_same_candidates_share_a_counter() {
    let mut runtime = Runtime::new();
    let one = parsed("{% cycle 'x', 'y' %}");
    let two = parsed("{% cycle 'x', 'y' %}");
    let other = parsed("{% cycle 'x', 'z' %}");
    assert_eq!(one.name(), two.name());
    assert_ne!(one.name(), other.name());
    assert_eq!(one.render(&mut runtime).unwrap(), "x");
    assert_eq!(two.render(&mut runtime).unwrap(), "y");
    assert_eq!(other.render(&mut runtime).unwrap(), "x");
}

#[test]
fn explicit_names() {
    assert_eq!(parsed("{% cycle group: 'a', 'b' %}").name(), "group");
    assert_eq!(parsed("{% cycle 'a': 'one', 'two' %}").name(), "a");
    assert_eq!(parsed("{% cycle 1: 'one', 'two' %}").name(), "1");
    assert_eq!(parsed("{% cycle group: 'a', 'b' %}").values().len(), 2);
    // an empty name is replaced by the name from the candidates
    assert_eq!(parsed("{% cycle '': x, y %}").name(), "x-y");
}

#[test]
fn a_list_is_values_with_commas_between() {
    assert_eq!(parsed("{% cycle a %}").values().len(), 1);
    assert_eq!(parsed("{% cycle a, b %}").values().len(), 2);
    assert_eq!(parsed("{% cycle n: a %}").values().len(), 1);
    // a `,` asks for a value after it
    assert_eq!(rejected("{% cycle a, b, %}"), SyntaxKind::ValueExpected);
    assert_eq!(rejected("{% cycle a, %}"), SyntaxKind::ValueExpected);
    assert_eq!(rejected("{% cycle n: a, %}"), SyntaxKind::ValueExpected);
    // a name asks for a value after its `:`
    assert_eq!(rejected("{% cycle c: %}"), SyntaxKind::ValueExpected);
    assert_eq!(rejected("{% cycle 'c': %}"), SyntaxKind::ValueExpected);
}

#[test]
fn whole_numbers_beyond_32_bits_are_no_values() {
    assert_eq!(rejected("{% cycle 99999999999 %}"), SyntaxKind::ValueExpected);
    assert_eq!(rejected("{% cycle 2147483648 %}"), SyntaxKind::ValueExpected);
    assert_eq!(rejected("{% cycle -2147483649 %}"), SyntaxKind::ValueExpected);
    assert_eq!(rejected("{% cycle 1, -99999999999 %}"), SyntaxKind::ValueExpected);
    assert_eq!(rejected("{% cycle a[99999999999] %}"), SyntaxKind::ValueExpected);
    assert_eq!(rejected("{% cycle a[b[ 99999999999 ]] %}"), SyntaxKind::ValueExpected);
    assert_eq!(rejected("{% cycle n: 1, 99999999999 %}"), SyntaxKind::ValueExpected);
    assert_eq!(rejected("{% cycle 99999999999: 1, 2 %}"), SyntaxKind::InvalidName);
}

#[test]
fn digits_that_are_no_whole_number_are_read() {
    let mut runtime = Runtime::new();
    let whole = parsed("{% cycle 2147483647, -2147483648, 0000000000001 %}");
    assert_eq!(whole.values().len(), 3);
    assert_eq!(whole.render(&mut runtime).unwrap(), "2147483647");
    assert_eq!(whole.render(&mut runtime).unwrap(), "-2147483648");
    assert_eq!(whole.render(&mut runtime).unwrap(), "1");

    let fractions = parsed("{% cycle 3000000000.5, 1.99999999999 %}");
    assert_eq!(fractions.values().len(), 2);
    assert_eq!(fractions.render(&mut runtime).unwrap(), "3000000000.5");
    assert_eq!(fractions.render(&mut runtime).unwrap(), "1.99999999999");

    let paths = parsed("{% cycle a12345678901, x['12345678901'], a[2147483647] %}");
    assert_eq!(paths.values().len(), 3);
    assert_eq!(paths.name(), paths.values().iter().map(|v| v.to_string()).collect::<Vec<_>>().join("-"));
    runtime.stack_mut().set_global("a12345678901", Value::scalar("seen"));
    assert_eq!(paths.render(&mut runtime).unwrap(), "seen");

    let quoted = parsed("{% cycle '99999999999', \"12345678901234\" %}");
    assert_eq!(quoted.render(&mut runtime).unwrap(), "99999999999");
    assert_eq!(quoted.render(&mut runtime).unwrap(), "12345678901234");

    assert_eq!(parsed("{% cycle 1.99999999999: a %}").name(), "1.99999999999");
    assert_eq!(parsed("{% cycle a12345678901: a %}").name(), "a12345678901");
    assert_eq!(parsed("{% cycle -2147483648: a %}").name(), "-2147483648");
}

#[test]
fn can_read_tells_whole_numbers_that_do_not_fit() {
    assert!(can_read(""));
    assert!(can_read("abc"));
    assert!(can_read("2147483647"));
    assert!(can_read("+2147483647"));
    assert!(can_read("-2147483648"));
    assert!(can_read("+0000000000002147483647"));
    assert!(can_read("3000000000.5"));
    assert!(can_read("1.99999999999"));
    assert!(can_read("a12345678901"));
    assert!(can_read("a-12345678901"));
    assert!(can_read("x['12345678901']"));
    assert!(can_read("x[\"[12345678901\"]"));
    assert!(can_read("'99999999999'"));
    assert!(can_read("a[ 2147483647 ].b[1.99999999999]"));
    assert!(!can_read("2147483648"));
    assert!(!can_read("+2147483648"));
    assert!(!can_read("-2147483649"));
    assert!(!can_read("99999999999"));
    assert!(!can_read("a[99999999999]"));
    assert!(!can_read("a[ -99999999999 ]"));
    assert!(!can_read("a[b['x'][99999999999]]"));
}

#[test]
fn syntax_errors_by_kind() {
    assert_eq!(rejected("{% cycle %}"), SyntaxKind::MissingArgument);
    assert_eq!(rejected("{% cycle a.b: 1, 2 %}"), SyntaxKind::InvalidName);
    assert_eq!(rejected("{% cycle a b %}"), SyntaxKind::SeparatorExpected);
    assert_eq!(rejected("{% cycle 1, , 2 %}"), SyntaxKind::ValueExpected);
    assert_eq!(rejected("{% cycle , 1 %}"), SyntaxKind::SeparatorExpected);
    assert_eq!(rejected("{% cycle , %}"), SyntaxKind::ValueExpected);
    assert_eq!(rejected("{% cycle = %}"), SyntaxKind::ValueExpected);
    assert_eq!(rejected("{% cycle a, b c %}"), SyntaxKind::CommaExpected);
    assert_eq!(rejected("{% cycle n: a, b c %}"), SyntaxKind::CommaExpected);
}

#[test]
fn stray_token_is_rejected_when_parsing() {
    let tag = Tag::new("{% cycle 'one', 'two' 'three' %}").unwrap();
    let error = parse_cycle(tag.into_tokens()).unwrap_err();
    assert_eq!(error.kind, SyntaxKind::CommaExpected);
    assert!(error.cause.to_string().contains("\",\" expected."));

    let tag = Tag::new("{% cycle one two %}").unwrap();
    let error = parse_cycle(tag.into_tokens()).unwrap_err();
    assert!(error.cause.to_string().contains("\":\" or \",\" expected."));
    // the error points at the second token, in column 14
    assert!(error.cause.to_string().contains("1:14"));
}

#[test]
fn syntax_errors_carry_their_labels() {
    let tag = Tag::new("{% cycle %}").unwrap();
    let error = parse_cycle(tag.into_tokens()).unwrap_err();
    assert_eq!(error.kind, SyntaxKind::MissingArgument);
    assert!(error.cause.to_string().contains("Identifier or value expected"));

    let tag = Tag::new("{% cycle a, b c %}").unwrap();
    let error = parse_cycle(tag.into_tokens()).unwrap_err();
    assert_eq!(error.kind, SyntaxKind::CommaExpected);
    assert!(error.cause.to_string().contains("\",\" expected."));
    // the error points at the token after `b`, in column 15
    assert!(error.cause.to_string().contains("1:15"));

    let tag = Tag::new("{% cycle 99999999999 %}").unwrap();
    let error = parse_cycle(tag.into_tokens()).unwrap_err();
    assert!(error.cause.to_string().contains("Value expected."));
}

#[test]
fn trace_shows_the_candidates() {
    assert_eq!(parsed("{% cycle this, cycle %}").trace(), "{% cycle this, cycle %}");
    assert_eq!(parsed("{% cycle n: x %}").trace(), "{% cycle x %}");
}

#[test]
fn tag_reflection() {
    let tag = CycleTag::new();
    assert_eq!(tag.tag(), "cycle");
    assert_eq!(tag.description(), "");
    assert_eq!(CycleTag::default().tag(), "cycle");
}

#[test]
fn cycle_index_steps_and_wraps() {
    let mut state = State::new();
    assert_eq!(state.cycle_index("a", 3), 0);
    assert_eq!(state.cycle_index("a", 3), 1);
    assert_eq!(state.cycle_index("b", 3), 0);
    assert_eq!(state.cycle_index("a", 3), 2);
    assert_eq!(state.cycle_index("a", 3), 0);
    assert_eq!(state.cycle_index("b", 3), 1);
    // a counter beyond a shorter list: (2 + 1) mod 2 = 1
    assert_eq!(state.cycle_index("b", 3), 2);
    assert_eq!(state.cycle_index("b", 2), 0);
    assert_eq!(state.cycle_index("b", 2), 1);
    assert_eq!(state.cycle_index("one", 1), 0);
    assert_eq!(state.cycle_index("one", 1), 0);
}

#[test]
fn state_selects_by_counter() {
    let cycle = parsed("{% cycle n: p, q %}");
    let mut state = State::default();
    assert_eq!(state.cycle("n", cycle.values()).unwrap().to_string(), "p");
    assert_eq!(state.cycle("n", cycle.values()).unwrap().to_string(), "q");
    assert_eq!(state.cycle("n", cycle.values()).unwrap().to_string(), "p");
    assert_eq!(cycle.select(&mut state).unwrap().to_string(), "q");

    let mut state = State::new();
    assert_eq!(state.cycle_index("n", 12), 0);
    assert_eq!(state.cycle_index("n", 12), 1);
    assert_eq!(state.cycle_index("n", 12), 2);
    let report = state.cycle("n", cycle.values()).unwrap_err().to_string();
    assert!(report.contains("index=3"));
    assert!(report.contains("count=2"));
    // the counter has moved on: (3 + 1) mod 2 = 0
    assert_eq!(cycle.select(&mut state).unwrap().to_string(), "p");

    let mut state = State::new();
    assert_eq!(state.cycle_index("n", 12), 0);
    assert_eq!(state.cycle_index("n", 12), 1);
    assert_eq!(state.cycle_index("n", 12), 2);
    let report = cycle.select(&mut state).unwrap_err().to_string();
    assert_eq!(
        report,
        "liquid: cycle index out of bounds, most likely from mismatched cycles\n  with:\n    index=3\n    count=2\nfrom: {% cycle p, q %}\n"
    );
}
