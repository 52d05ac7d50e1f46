use querydown::ast::{CallSyntax, Expr, PathPart};
use querydown::entry::expression;
use querydown::nesting::{msg_no_leading_column_reference, prefix_leading_path};

fn head() -> Vec<PathPart> {
    vec![PathPart::Column("issue".to_string())]
}

#[test]
fn the_head_goes_before_the_leading_column() {
    let nested = prefix_leading_path(&head(), expression("title|upper").unwrap()).unwrap();
    assert_eq!(nested, expression("issue.title|upper").unwrap());
    let nested = prefix_leading_path(&head(), expression("!a.b:1").unwrap()).unwrap();
    assert_eq!(nested, expression("!issue.a.b:1").unwrap());
    let nested = prefix_leading_path(&head(), expression("id * 2 + 1").unwrap()).unwrap();
    assert_eq!(nested, expression("issue.id * 2 + 1").unwrap());
}

#[test]
fn heads_compose() {
    let inner = prefix_leading_path(&[PathPart::Column("b".to_string())], expression("c").unwrap())
        .unwrap();
    let outer = prefix_leading_path(&[PathPart::Column("a".to_string())], inner).unwrap();
    assert_eq!(outer, expression("a.b.c").unwrap());
}

#[test]
fn an_expression_without_a_leading_column_cannot_be_nested() {
    for text in ["8", "'foo'", "%count", "@@now()", "@x"] {
        let result = prefix_leading_path(&head(), expression(text).unwrap());
        assert_eq!(result, Err(msg_no_leading_column_reference()), "for {text}");
    }
    match expression("@@now()").unwrap() {
        Expr::Call(call) => assert_eq!(call.syntax, CallSyntax::Standalone),
        other => panic!("expected a call, got {other:?}"),
    }
}
