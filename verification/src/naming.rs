//! How a persistable type's declaration names its table and its columns:
//! by the declared identifiers, unless an attribute overrides them.

use vstd::prelude::*;

verus! {

/// The form of one attribute on a declaration, as far as naming reads it.
#[derive(Debug)]
pub enum AttrForm {
    /// The naming attribute with one string literal as its argument.
    Literal(String),
    /// The naming attribute with any other argument.
    BadArgument,
    /// Any other attribute, or the naming attribute without an argument
    /// list.
    Other,
}

/// Why a declaration cannot be named.
#[derive(Clone, Copy, PartialEq, Eq, Structural, Debug)]
pub enum NamingError {
    /// The attribute at this position has an argument that is not a single
    /// string literal.
    ArgumentNotLiteral { at: usize },
    /// The attribute at this position is not of the form that naming
    /// accepts.
    BadAttribute { at: usize },
    /// A field without an identifier has no attribute that names its
    /// column.
    UnnamedField,
}

/// The name that the attributes before position `upto` leave in force:
/// that of the last literal among them, else `default`.
pub open spec fn name_in_force(attrs: Seq<AttrForm>, default: Option<Seq<char>>, upto: int) -> Option<
    Seq<char>,
>
    decreases upto,
{
    if upto <= 0 {
        default
    } else {
        match attrs[upto - 1] {
            AttrForm::Literal(name) => Some(name@),
            _ => name_in_force(attrs, default, upto - 1),
        }
    }
}

/// `at` is the first attribute that is not the naming attribute with a
/// literal.
pub open spec fn is_first_bad(attrs: Seq<AttrForm>, at: int) -> bool {
    &&& 0 <= at < attrs.len()
    &&& !(attrs[at] is Literal)
    &&& forall|before: int| 0 <= before < at ==> attrs[before] is Literal
}

/// The name that a declaration gets: the error of the first attribute that
/// naming does not accept; else the last override; else the default; and
/// `UnnamedField` where there is none of these.
pub open spec fn resolved_name(attrs: Seq<AttrForm>, default: Option<Seq<char>>) -> Result<
    Seq<char>,
    NamingError,
> {
    if exists|at: int| is_first_bad(attrs, at) {
        let at = choose|at: int| is_first_bad(attrs, at);
        if attrs[at] is BadArgument {
            Err(NamingError::ArgumentNotLiteral { at: at as usize })
        } else {
            Err(NamingError::BadAttribute { at: at as usize })
        }
    } else {
        match name_in_force(attrs, default, attrs.len() as int) {
            Some(name) => Ok(name),
            None => Err(NamingError::UnnamedField),
        }
    }
}

/// What `name` denotes.
pub open spec fn name_view(name: Option<String>) -> Option<Seq<char>> {
    match name {
        Some(n) => Some(n@),
        None => None,
    }
}

/// Names a declaration from its default name, if it has one, and its
/// attributes in source order.
pub fn resolve_name(default: Option<String>, attrs: &Vec<AttrForm>) -> (outcome: Result<
    String,
    NamingError,
>)
    ensures
        match outcome {
            Ok(name) => resolved_name(attrs@, name_view(default)) == Ok::<Seq<char>, NamingError>(
                name@,
            ),
            Err(e) => resolved_name(attrs@, name_view(default)) == Err::<Seq<char>, NamingError>(e),
        },
{
    let mut name = default;
    let mut i: usize = 0;
    while i < attrs.len()
        invariant
            i <= attrs.len(),
            forall|before: int| 0 <= before < i ==> attrs[before] is Literal,
            name_view(name) == name_in_force(attrs@, name_view(default), i as int),
        decreases attrs.len() - i,
    {
        match &attrs[i] {
            AttrForm::Literal(text) => {
                name = Some(text.clone());
            },
            AttrForm::BadArgument => {
                proof {
                    lemma_first_bad_is_unique(attrs@, i as int);
                }
                return Err(NamingError::ArgumentNotLiteral { at: i });
            },
            AttrForm::Other => {
                proof {
                    lemma_first_bad_is_unique(attrs@, i as int);
                }
                return Err(NamingError::BadAttribute { at: i });
            },
        }
        i += 1;
    }
    assert(!exists|at: int| is_first_bad(attrs@, at));
    match name {
        Some(n) => Ok(n),
        None => Err(NamingError::UnnamedField),
    }
}

/// The first attribute that naming does not accept is the only such
/// position.
proof fn lemma_first_bad_is_unique(attrs: Seq<AttrForm>, at: int)
    requires
        is_first_bad(attrs, at),
    ensures
        exists|a: int| is_first_bad(attrs, a),
        (choose|a: int| is_first_bad(attrs, a)) == at,
{
    let chosen = choose|a: int| is_first_bad(attrs, a);
    assert(is_first_bad(attrs, chosen));
    if chosen < at {
        assert(attrs[chosen] is Literal);
    }
    if at < chosen {
        assert(attrs[at] is Literal);
    }
}

/// The table of a type: named by a `table_name` attribute, else as the
/// type itself.
pub fn parse_table_name(type_ident: String, attrs: &Vec<AttrForm>) -> (outcome: Result<
    String,
    NamingError,
>)
    ensures
        match outcome {
            Ok(name) => resolved_name(attrs@, Some(type_ident@)) == Ok::<Seq<char>, NamingError>(
                name@,
            ),
            Err(e) => resolved_name(attrs@, Some(type_ident@)) == Err::<Seq<char>, NamingError>(e),
        },
        !(outcome matches Err(NamingError::UnnamedField)),
{
    let outcome = resolve_name(Some(type_ident), attrs);
    proof {
        if !exists|at: int| is_first_bad(attrs@, at) {
            lemma_default_stays_in_force(attrs@, type_ident@, attrs@.len() as int);
        }
    }
    outcome
}

/// With a default, some name is in force at every position.
proof fn lemma_default_stays_in_force(attrs: Seq<AttrForm>, default: Seq<char>, upto: int)
    requires
        upto <= attrs.len(),
    ensures
        name_in_force(attrs, Some(default), upto) is Some,
    decreases upto,
{
    if upto > 0 {
        lemma_default_stays_in_force(attrs, default, upto - 1);
    }
}

/// The column of a field: named by a `column_name` attribute, else as the
/// field itself. A field without an identifier needs the attribute.
pub fn parse_column_name(field_ident: Option<String>, attrs: &Vec<AttrForm>) -> (outcome: Result<
    String,
    NamingError,
>)
    ensures
        match outcome {
            Ok(name) => resolved_name(attrs@, name_view(field_ident)) == Ok::<
                Seq<char>,
                NamingError,
            >(name@),
            Err(e) => resolved_name(attrs@, name_view(field_ident)) == Err::<
                Seq<char>,
                NamingError,
            >(e),
        },
{
    resolve_name(field_ident, attrs)
}

/// One field of a declaration: its identifier, if it has one, and its
/// attributes in source order.
#[derive(Debug)]
pub struct FieldDecl {
    pub ident: Option<String>,
    pub attrs: Vec<AttrForm>,
}

/// The names of one field: the attribute as the type exposes it, and the
/// column that stores it.
#[derive(Debug)]
pub struct FieldPlan {
    pub attr_name: String,
    pub column_name: String,
}

/// The names of a persistable type.
#[derive(Debug)]
pub struct SchemaPlan {
    pub ty_name: String,
    pub table_name: String,
    pub fields: Vec<FieldPlan>,
}

/// Why a declaration has no plan.
#[derive(Clone, Copy, PartialEq, Eq, Structural, Debug)]
pub enum PlanError {
    /// The table cannot be named.
    Table(NamingError),
    /// The column of the field at this position cannot be named.
    Field { index: usize, error: NamingError },
}

/// The name under which the type exposes a field: its identifier, or
/// `unnamed_field`.
pub open spec fn spec_attr_name(ident: Option<String>) -> Seq<char> {
    match ident {
        Some(name) => name@,
        None => "unnamed_field"@,
    }
}

/// The name under which the type exposes a field.
pub fn attr_name(ident: &Option<String>) -> (name: String)
    ensures
        name@ == spec_attr_name(*ident),
{
    match ident {
        Some(name) => name.clone(),
        None => "unnamed_field".to_owned(),
    }
}

/// The column of field `index` can be named, and the plan names it so.
pub open spec fn field_planned(decl: FieldDecl, plan: FieldPlan) -> bool {
    &&& plan.attr_name@ == spec_attr_name(decl.ident)
    &&& resolved_name(decl.attrs@, name_view(decl.ident)) == Ok::<Seq<char>, NamingError>(
        plan.column_name@,
    )
}

/// `index` is the first field whose column cannot be named, for the reason
/// `error`.
pub open spec fn is_first_unnamed(fields: Seq<FieldDecl>, index: int, error: NamingError) -> bool {
    &&& 0 <= index < fields.len()
    &&& resolved_name(fields[index].attrs@, name_view(fields[index].ident)) == Err::<
        Seq<char>,
        NamingError,
    >(error)
    &&& forall|before: int|
        0 <= before < index ==> (#[trigger] resolved_name(
            fields[before].attrs@,
            name_view(fields[before].ident),
        )) is Ok
}

/// Names the table and the columns of a declaration. The table is named
/// first, then the fields in their order; the first that cannot be named
/// decides the error.
pub fn plan_schema(type_ident: String, type_attrs: &Vec<AttrForm>, fields: &Vec<FieldDecl>) -> (outcome:
    Result<SchemaPlan, PlanError>)
    ensures
        match outcome {
            Ok(plan) => {
                &&& plan.ty_name@ == type_ident@
                &&& resolved_name(type_attrs@, Some(type_ident@)) == Ok::<Seq<char>, NamingError>(
                    plan.table_name@,
                )
                &&& plan.fields.len() == fields.len()
                &&& forall|i: int|
                    0 <= i < fields.len() ==> field_planned(fields[i], #[trigger] plan.fields[i])
            },
            Err(PlanError::Table(e)) => resolved_name(type_attrs@, Some(type_ident@)) == Err::<
                Seq<char>,
                NamingError,
            >(e),
            Err(PlanError::Field { index, error }) => {
                &&& resolved_name(type_attrs@, Some(type_ident@)) is Ok
                &&& is_first_unnamed(fields@, index as int, error)
            },
        },
{
    let table_name = match parse_table_name(type_ident.clone(), type_attrs) {
        Ok(name) => name,
        Err(e) => {
            return Err(PlanError::Table(e));
        },
    };
    let mut planned: Vec<FieldPlan> = Vec::new();
    let mut i: usize = 0;
    while i < fields.len()
        invariant
            i <= fields.len(),
            planned.len() == i,
            resolved_name(type_attrs@, Some(type_ident@)) == Ok::<Seq<char>, NamingError>(
                table_name@,
            ),
            forall|k: int| 0 <= k < i ==> field_planned(fields[k], #[trigger] planned[k]),
            forall|k: int|
                0 <= k < i ==> (#[trigger] resolved_name(
                    fields[k].attrs@,
                    name_view(fields[k].ident),
                )) is Ok,
        decreases fields.len() - i,
    {
        let decl = &fields[i];
        let ident = match &decl.ident {
            Some(name) => Some(name.clone()),
            None => None,
        };
        let column_name = match parse_column_name(ident, &decl.attrs) {
            Ok(name) => name,
            Err(error) => {
                return Err(PlanError::Field { index: i, error });
            },
        };
        planned.push(FieldPlan { attr_name: attr_name(&decl.ident), column_name });
        i += 1;
    }
    Ok(SchemaPlan { ty_name: type_ident, table_name, fields: planned })
}

} // verus!
