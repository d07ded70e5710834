use orm::naming::{
    attr_name, parse_column_name, parse_table_name, plan_schema, AttrForm, FieldDecl, NamingError,
    PlanError,
};

fn lit(s: &str) -> AttrForm {
    AttrForm::Literal(s.to_string())
}

#[test]
fn table_is_named_as_the_type_by_default() {
    assert_eq!(parse_table_name("User".to_string(), &vec![]), Ok("User".to_string()));
}

#[test]
fn table_name_attribute_overrides_and_the_last_wins() {
    assert_eq!(parse_table_name("User".to_string(), &vec![lit("users")]), Ok("users".to_string()));
    assert_eq!(
        parse_table_name("User".to_string(), &vec![lit("a"), lit("b")]),
        Ok("b".to_string())
    );
}

#[test]
fn first_unaccepted_attribute_decides_the_error() {
    assert_eq!(
        parse_table_name("User".to_string(), &vec![lit("a"), AttrForm::BadArgument, AttrForm::Other]),
        Err(NamingError::ArgumentNotLiteral { at: 1 })
    );
    assert_eq!(
        parse_table_name("User".to_string(), &vec![AttrForm::Other, lit("a")]),
        Err(NamingError::BadAttribute { at: 0 })
    );
}

#[test]
fn column_is_named_as_the_field_unless_overridden() {
    assert_eq!(parse_column_name(Some("age".to_string()), &vec![]), Ok("age".to_string()));
    assert_eq!(
        parse_column_name(Some("age".to_string()), &vec![lit("years")]),
        Ok("years".to_string())
    );
    assert_eq!(parse_column_name(None, &vec![lit("first")]), Ok("first".to_string()));
    assert_eq!(parse_column_name(None, &vec![]), Err(NamingError::UnnamedField));
    assert_eq!(
        parse_column_name(None, &vec![AttrForm::Other]),
        Err(NamingError::BadAttribute { at: 0 })
    );
}

#[test]
fn attr_name_of_a_field() {
    assert_eq!(attr_name(&Some("age".to_string())), "age");
    assert_eq!(attr_name(&None), "unnamed_field");
}

#[test]
fn plan_names_table_and_columns() {
    let fields = vec![
        FieldDecl { ident: Some("name".to_string()), attrs: vec![] },
        FieldDecl { ident: Some("age".to_string()), attrs: vec![lit("years")] },
        FieldDecl { ident: None, attrs: vec![lit("extra")] },
    ];
    let plan = plan_schema("User".to_string(), &vec![lit("users")], &fields).ok().unwrap();
    assert_eq!(plan.ty_name, "User");
    assert_eq!(plan.table_name, "users");
    assert_eq!(plan.fields.len(), 3);
    assert_eq!(plan.fields[0].attr_name, "name");
    assert_eq!(plan.fields[0].column_name, "name");
    assert_eq!(plan.fields[1].attr_name, "age");
    assert_eq!(plan.fields[1].column_name, "years");
    assert_eq!(plan.fields[2].attr_name, "unnamed_field");
    assert_eq!(plan.fields[2].column_name, "extra");
}

#[test]
fn plan_reports_the_first_failure() {
    let fields = vec![
        FieldDecl { ident: Some("name".to_string()), attrs: vec![] },
        FieldDecl { ident: None, attrs: vec![] },
        FieldDecl { ident: Some("x".to_string()), attrs: vec![AttrForm::BadArgument] },
    ];
    assert!(matches!(
        plan_schema("User".to_string(), &vec![], &fields),
        Err(PlanError::Field { index: 1, error: NamingError::UnnamedField })
    ));
    assert!(matches!(
        plan_schema("User".to_string(), &vec![AttrForm::BadArgument], &fields),
        Err(PlanError::Table(NamingError::ArgumentNotLiteral { at: 0 }))
    ));
}
