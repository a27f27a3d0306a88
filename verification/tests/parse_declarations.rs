use uckc::frontend::parser::parse_str;
use uckc::frontend::parser::proper_parser::ast::methods::{
    AstMethodArgument, MethodAstNode, MethodOrConstraintAstNode, PossiblyDocumentedMethodAstNode,
};
use uckc::frontend::parser::proper_parser::ast::publicity::{
    AstClassItemPublicity, AstPublicity, InterfaceMethodPublicity,
};
use uckc::frontend::parser::proper_parser::ast::top_level::TopLevelAstNode;
use uckc::frontend::parser::proper_parser::ast::types::{AstType, GenericName};
use uckc::frontend::parser::proper_parser::parse_error::ParseError;

fn only_statement(source: &str) -> TopLevelAstNode<'_> {
    let mut program = parse_str(source).unwrap();
    assert_eq!(program.len(), 1);
    program.pop().unwrap()
}

fn failure(source: &str) -> ParseError {
    match parse_str(source) {
        Ok(program) => panic!("parsed to {:?}", program),
        Err(err) => err,
    }
}

fn offset(source: &str, needle: &str) -> usize {
    source.find(needle).unwrap()
}

fn root_name(t: &AstType<'_>) -> String {
    match t {
        AstType::RootName(_, name) => name.to_string(),
        AstType::MemberOf(_, of, name) => format!("{}.{}", root_name(of), name),
        AstType::GenericOf(_, of, generics) => {
            let entries: Vec<String> = generics
                .entries
                .iter()
                .map(|entry| {
                    let name = match entry.name {
                        GenericName::Named(name) => name.to_string(),
                        GenericName::Positional(at) => format!("#{}", at),
                    };
                    match &entry.bound {
                        Some(bound) => format!("{}:{}", name, root_name(bound)),
                        None => name,
                    }
                })
                .collect();
            format!("{}<{}>", root_name(of), entries.join(","))
        }
    }
}

fn base_method<'a, 'b, P>(entry: &'b MethodOrConstraintAstNode<'a, P>) -> &'b MethodAstNode<'a, P> {
    match entry {
        MethodOrConstraintAstNode::Method(_, PossiblyDocumentedMethodAstNode::BaseMethod(_, m)) => m,
        _ => panic!("no plain method"),
    }
}

#[test]
fn a_truncated_struct_is_a_fatal_end_of_input() {
    let err = failure("struct S { pub x ->");
    assert!(err.fatal);
    assert!(err.is_eof);
    assert_eq!(err.span, usize::MAX..usize::MAX);
    assert_eq!(err.got, None);
    assert!(err.expected.contains(&"identifier (as part of a type)"));
    assert_eq!(err.expected, vec!["identifier (as part of a type)"]);
}

#[test]
fn struct_with_fields_and_a_method() {
    let source = "struct S<T: A.B> implements I { pub x -> T, priv y -> List<T>, pub fun get(this) -> T }";
    match only_statement(source) {
        TopLevelAstNode::StructDec(span, dec) => {
            assert_eq!(span, 0..source.len());
            assert_eq!(dec.span, 0..source.len());
            assert_eq!(root_name(&dec.struct_type), "S<T:A.B>");
            assert_eq!(dec.struct_type.get_span(), 7..16);
            assert_eq!(root_name(dec.implements.as_ref().unwrap()), "I");
            assert_eq!(dec.fields.len(), 2);
            assert_eq!(dec.fields[0].publicity, AstPublicity::Public);
            assert_eq!(dec.fields[0].name, "x");
            assert_eq!(root_name(&dec.fields[0].field_type), "T");
            assert_eq!(dec.fields[0].span, offset(source, "pub x")..offset(source, ", priv"));
            assert_eq!(dec.fields[1].publicity, AstPublicity::Private);
            assert_eq!(dec.fields[1].name, "y");
            assert_eq!(root_name(&dec.fields[1].field_type), "List<#0:T>");
            assert_eq!(dec.fields[1].span, offset(source, "priv y")..offset(source, ", pub fun"));
            assert_eq!(dec.methods.len(), 1);
            let method = base_method(&dec.methods[0]);
            assert_eq!(method.publicity, AstPublicity::Public);
            assert_eq!(root_name(&method.new_type), "get<>");
            assert_eq!(method.args.len(), 1);
            assert!(matches!(method.args[0], AstMethodArgument::This(_)));
            assert_eq!(root_name(method.return_type.as_ref().unwrap()), "T");
            assert_eq!(method.span, offset(source, "pub fun")..offset(source, " }"));
            assert_eq!(dec.methods[0].get_span(), method.span);
        }
        other => panic!("unexpected statement {:?}", other),
    }
}

#[test]
fn an_empty_struct() {
    match only_statement("struct S {}") {
        TopLevelAstNode::StructDec(span, dec) => {
            assert_eq!(span, 0..11);
            assert!(dec.implements.is_none());
            assert!(dec.fields.is_empty());
            assert!(dec.methods.is_empty());
        }
        other => panic!("unexpected statement {:?}", other),
    }
}

#[test]
fn a_struct_that_is_not_closed_names_all_that_could_follow() {
    let err = failure("struct S {");
    assert!(err.fatal);
    assert!(err.is_eof);
    assert_eq!(err.span, usize::MAX..usize::MAX);
    assert_eq!(
        err.expected,
        vec![
            "privacy specifier (to create a method with the specified visibility)",
            "`<` (to create a new constraint block)",
            "`}` (to close the body of the struct)",
        ]
    );

    let err = failure("struct S { pub x -> T ;");
    assert!(err.fatal);
    assert!(!err.is_eof);
    assert_eq!(err.span, 22..23);
    assert_eq!(err.got, Some(";".to_string()));
    assert_eq!(
        err.expected,
        vec![
            "privacy specifier (to create a method with the specified visibility)",
            "`<` (to create a new constraint block)",
            "`}` (to close the body of the struct)",
        ]
    );
}

#[test]
fn a_failure_in_a_method_is_merged_with_the_end_of_the_fields() {
    let source = "struct S { pub x -> T, pub fun }";
    let err = failure(source);
    assert!(err.fatal);
    assert!(!err.is_eof);
    assert_eq!(
        err.expected,
        vec!["identifier (to set the name of the field)", "identifier (as part of a type)"]
    );
    assert_eq!(err.got, Some("fun".to_string()));
    assert_eq!(err.span, offset(source, "fun")..offset(source, "fun") + 3);
}

#[test]
fn a_struct_without_a_body_is_fatal() {
    let err = failure("struct S;");
    assert!(err.fatal);
    assert_eq!(err.span, 8..9);
    assert_eq!(err.expected, vec!["`{` (to open the body of the struct)"]);

    let err = failure("struct S implements {}");
    assert!(err.fatal);
    assert_eq!(err.span, 20..21);
    assert_eq!(err.expected, vec!["identifier (as part of a type)"]);
}

#[test]
fn a_field_without_a_type_is_fatal() {
    let err = failure("struct S { pub x -> }");
    assert!(err.fatal);
    assert_eq!(err.span, 20..21);
    assert_eq!(err.got, Some("}".to_string()));
    assert_eq!(err.expected, vec!["identifier (as part of a type)"]);
}

#[test]
fn class_with_all_its_visibilities() {
    let source = "class C<T> extends Base<T> implements I.J {\n\
                  pub a -> A, priv b -> B, mpriv c -> C, prot d -> D, mprot e -> E,\n\
                  mprot fun f(), pub fun g(mut this),\n}";
    match only_statement(source) {
        TopLevelAstNode::ClassDec(span, dec) => {
            assert_eq!(span, 0..source.len());
            assert_eq!(root_name(&dec.class_type), "C<T>");
            assert_eq!(root_name(dec.extends.as_ref().unwrap()), "Base<#0:T>");
            assert_eq!(root_name(dec.implements.as_ref().unwrap()), "I.J");
            let publicities: Vec<AstClassItemPublicity> =
                dec.fields.iter().map(|field| field.publicity).collect();
            assert_eq!(
                publicities,
                vec![
                    AstClassItemPublicity::Public,
                    AstClassItemPublicity::Private,
                    AstClassItemPublicity::ModulePrivate,
                    AstClassItemPublicity::Protected,
                    AstClassItemPublicity::ModuleProtected,
                ]
            );
            let names: Vec<&str> = dec.fields.iter().map(|field| field.name).collect();
            assert_eq!(names, vec!["a", "b", "c", "d", "e"]);
            assert_eq!(dec.methods.len(), 2);
            let f = base_method(&dec.methods[0]);
            assert_eq!(f.publicity, AstClassItemPublicity::ModuleProtected);
            assert!(f.args.is_empty());
            assert!(f.return_type.is_none());
            assert_eq!(f.span, offset(source, "mprot fun")..offset(source, ", pub fun"));
            let g = base_method(&dec.methods[1]);
            assert_eq!(g.publicity, AstClassItemPublicity::Public);
            assert!(matches!(g.args[0], AstMethodArgument::ThisMut(_)));
            assert_eq!(
                g.args[0].get_span(),
                offset(source, "mut this")..offset(source, "mut this") + 8
            );
        }
        other => panic!("unexpected statement {:?}", other),
    }
}

#[test]
fn a_class_without_clauses() {
    match only_statement("class C { }") {
        TopLevelAstNode::ClassDec(span, dec) => {
            assert_eq!(span, 0..11);
            assert!(dec.extends.is_none());
            assert!(dec.implements.is_none());
        }
        other => panic!("unexpected statement {:?}", other),
    }
}

#[test]
fn a_struct_takes_no_class_visibility() {
    let source = "struct S { prot x -> T }";
    let err = failure(source);
    assert!(err.fatal);
    assert_eq!(err.span, 11..15);
    assert_eq!(err.got, Some("prot".to_string()));
    assert_eq!(
        err.expected,
        vec![
            "privacy specifier (to create a method with the specified visibility)",
            "`<` (to create a new constraint block)",
            "`}` (to close the body of the struct)",
        ]
    );
}

#[test]
fn interface_with_public_methods() {
    let source = "interface I<T> extends J { pub fun f(this, x -> T) -> T, pub fun g() }";
    match only_statement(source) {
        TopLevelAstNode::InterfaceDec(span, dec) => {
            assert_eq!(span, 0..source.len());
            assert_eq!(root_name(&dec.interface_type), "I<T>");
            assert_eq!(root_name(dec.extends.as_ref().unwrap()), "J");
            assert_eq!(dec.methods.len(), 2);
            let f = base_method(&dec.methods[0]);
            assert_eq!(f.publicity, InterfaceMethodPublicity::Public);
            assert_eq!(f.args.len(), 2);
            match &f.args[1] {
                AstMethodArgument::Regular(span, name, arg_type) => {
                    assert_eq!(*span, offset(source, "x -> T")..offset(source, "x -> T") + 6);
                    assert_eq!(*name, "x");
                    assert_eq!(root_name(arg_type), "T");
                }
                other => panic!("unexpected argument {:?}", other),
            }
            assert_eq!(root_name(&base_method(&dec.methods[1]).new_type), "g<>");
        }
        other => panic!("unexpected statement {:?}", other),
    }
}

#[test]
fn an_interface_takes_public_methods_only() {
    let source = "interface I { priv fun f() }";
    let err = failure(source);
    assert!(err.fatal);
    assert_eq!(err.span, 14..18);
    assert_eq!(err.got, Some("priv".to_string()));
    assert_eq!(
        err.expected,
        vec![
            "privacy specifier (to create a method with the specified visibility)",
            "`<` (to create a new constraint block)",
            "`}` (to close the body of the interface)",
        ]
    );
}

#[test]
fn enum_with_cases_methods_and_a_constraint_block() {
    let source = "enum Color<T> implements Show {\n\
                  Red, Green(Int, List<T>), Blue(),\n\
                  pub fun name(this) -> String,\n\
                  /* doc */ priv fun set(mut this, x -> T)\n\
                  <U: Show> { mpriv fun show<V>() }\n}";
    match only_statement(source) {
        TopLevelAstNode::EnumDec(span, dec) => {
            assert_eq!(span, 0..source.len());
            assert_eq!(dec.span, 0..source.len());
            assert_eq!(root_name(&dec.enum_type), "Color<T>");
            assert_eq!(root_name(dec.implements.as_ref().unwrap()), "Show");
            assert_eq!(dec.cases.len(), 3);
            assert_eq!(dec.cases[0].case_name, "Red");
            assert!(dec.cases[0].case_args.is_empty());
            assert_eq!(dec.cases[0].span, offset(source, "Red")..offset(source, "Red") + 3);
            assert_eq!(dec.cases[1].case_name, "Green");
            let args: Vec<String> = dec.cases[1].case_args.iter().map(root_name).collect();
            assert_eq!(args, vec!["Int", "List<#0:T>"]);
            assert_eq!(dec.cases[1].span, offset(source, "Green")..offset(source, ", Blue"));
            assert_eq!(dec.cases[2].case_name, "Blue");
            assert!(dec.cases[2].case_args.is_empty());
            assert_eq!(dec.cases[2].span, offset(source, "Blue")..offset(source, "Blue") + 6);

            assert_eq!(dec.methods.len(), 3);
            let name = base_method(&dec.methods[0]);
            assert_eq!(name.publicity, AstPublicity::Public);
            assert_eq!(root_name(&name.new_type), "name<>");
            assert_eq!(root_name(name.return_type.as_ref().unwrap()), "String");
            match &dec.methods[1] {
                MethodOrConstraintAstNode::Method(
                    span,
                    PossiblyDocumentedMethodAstNode::DocumentedMethod(inner_span, comment, method),
                ) => {
                    let start = offset(source, "/* doc */");
                    let end = offset(source, "\n<U");
                    assert_eq!(*span, start..end);
                    assert_eq!(*inner_span, start..end);
                    assert_eq!(*comment, "/* doc */");
                    assert_eq!(method.get_span(), offset(source, "priv fun")..end);
                    match &**method {
                        PossiblyDocumentedMethodAstNode::BaseMethod(_, set) => {
                            assert_eq!(set.publicity, AstPublicity::Private);
                            assert_eq!(set.args.len(), 2);
                        }
                        other => panic!("unexpected method {:?}", other),
                    }
                }
                other => panic!("unexpected entry {:?}", other),
            }
            match &dec.methods[2] {
                MethodOrConstraintAstNode::Constraint(span, generics, methods) => {
                    assert_eq!(*span, offset(source, "<U")..offset(source, "\n}"));
                    assert_eq!(generics.span, offset(source, "<U")..offset(source, " { mpriv"));
                    assert_eq!(generics.entries.len(), 1);
                    assert!(matches!(generics.entries[0].name, GenericName::Named("U")));
                    assert_eq!(root_name(generics.entries[0].bound.as_ref().unwrap()), "Show");
                    assert_eq!(
                        generics.entries[0].span,
                        offset(source, "U: Show")..offset(source, "U: Show") + 7
                    );
                    assert_eq!(methods.len(), 1);
                    let show = base_method(&methods[0]);
                    assert_eq!(show.publicity, AstPublicity::ModulePrivate);
                    assert_eq!(root_name(&show.new_type), "show<V>");
                }
                other => panic!("unexpected entry {:?}", other),
            }
        }
        other => panic!("unexpected statement {:?}", other),
    }
}

#[test]
fn an_enum_of_cases_only() {
    match only_statement("enum E { A, B }") {
        TopLevelAstNode::EnumDec(span, dec) => {
            assert_eq!(span, 0..15);
            assert!(dec.implements.is_none());
            assert_eq!(dec.cases.len(), 2);
            assert!(dec.methods.is_empty());
        }
        other => panic!("unexpected statement {:?}", other),
    }
    match only_statement("enum E {}") {
        TopLevelAstNode::EnumDec(span, dec) => {
            assert_eq!(span, 0..9);
            assert!(dec.cases.is_empty());
        }
        other => panic!("unexpected statement {:?}", other),
    }
}

#[test]
fn an_enum_with_a_broken_header_is_fatal() {
    let err = failure("enum E;");
    assert!(err.fatal);
    assert_eq!(err.span, 6..7);
    assert_eq!(
        err.expected,
        vec![
            "`implements` (to signal which traits the enum implements)",
            "`{` (to begin the body of the enum)",
        ]
    );

    let err = failure("enum E implements I;");
    assert!(err.fatal);
    assert_eq!(err.span, 19..20);
    assert_eq!(err.expected, vec!["`{` (to begin the body of the enum)"]);
}

#[test]
fn an_enum_with_a_broken_case_is_fatal() {
    let err = failure("enum E { A B }");
    assert!(err.fatal);
    assert_eq!(err.span, 11..12);
    assert_eq!(err.got, Some("B".to_string()));
    assert_eq!(
        err.expected,
        vec![
            "`,` (to signal the next case or first method of the enum)",
            "`}` (to close the struct)",
        ]
    );

    let err = failure("enum E { 1 }");
    assert!(err.fatal);
    assert_eq!(err.span, 9..10);
    assert_eq!(
        err.expected,
        vec![
            "identifier (to define a new enum case)",
            "`pub` or `priv` (to define a new method and its publicity)",
            "`<` (to start a new constraint block)",
        ]
    );

    let err = failure("enum E { A(1) }");
    assert!(err.fatal);
    assert_eq!(err.span, 11..12);
    assert_eq!(
        err.expected,
        vec![
            "identifier (to start a type)",
            "`)` (to end the description of the fields of the enum case)",
        ]
    );

    let err = failure("enum E { A(B C) }");
    assert!(err.fatal);
    assert_eq!(err.span, 13..14);
    assert_eq!(
        err.expected,
        vec![
            "`,` (to signal the next type)",
            "`)` (to end the description of the fields of the enum case)",
        ]
    );
}

#[test]
fn an_enum_that_is_not_closed_is_fatal() {
    let err = failure("enum E { A, pub fun f()");
    assert!(err.fatal);
    assert!(err.is_eof);
    assert_eq!(
        err.expected,
        vec![
            "privacy specifier (to create a method with the specified visibility)",
            "`<` (to create a new constraint block)",
            "`}` (to close the body of the enum)",
        ]
    );
}

#[test]
fn broken_method_arguments_are_fatal() {
    let err = failure("interface I { pub fun f(1) }");
    assert!(err.fatal);
    assert_eq!(err.span, 24..25);
    assert_eq!(err.got, Some("1".to_string()));
    assert_eq!(
        err.expected,
        vec![
            "identifier (to define a new arg)",
            "`this` (to denote that the function takes an instance)",
            "`mut` (to begin the phrase `mut this` that denotes that the function takes a mutable instance)",
        ]
    );

    let err = failure("interface I { pub fun f(x) }");
    assert!(err.fatal);
    assert_eq!(err.span, 25..26);
    assert_eq!(err.expected, vec!["`->` (to supply the type of the argument)"]);

    let err = failure("interface I { pub fun f(mut x) }");
    assert!(err.fatal);
    assert_eq!(err.span, 28..29);
    assert_eq!(err.expected, vec!["`this`"]);

    let err = failure("interface I { pub fun f(this x) }");
    assert!(err.fatal);
    assert_eq!(err.span, 29..30);
    assert_eq!(
        err.expected,
        vec!["`,` (to signal the next argument)", "`)` (to end the argument declarations)"]
    );

    let err = failure("interface I { pub fun f }");
    assert!(err.fatal);
    assert_eq!(err.span, 24..25);
    assert_eq!(err.expected, vec!["`(` (to begin a definition of args)"]);

    let err = failure("interface I { pub fun f(");
    assert!(err.fatal);
    assert!(err.is_eof);
    assert_eq!(
        err.expected,
        vec![
            "identifier (to define a new arg)",
            "`this` (to denote that the function takes an instance)",
            "`mut` (to begin the phrase `mut this` that denotes that the function takes a mutable instance)",
        ]
    );

    let err = failure("interface I { pub f() }");
    assert!(err.fatal);
    assert_eq!(err.span, 18..19);
    assert_eq!(err.got, Some("f".to_string()));
    assert_eq!(err.expected, vec!["`fun`"]);
}

#[test]
fn a_failure_in_a_method_of_a_class_names_what_a_field_needs_too() {
    let err = failure("class C { pub f() }");
    assert!(err.fatal);
    assert_eq!(err.span, 14..15);
    assert_eq!(err.got, Some("(".to_string()));
    assert_eq!(err.expected, vec!["`->` (to denote the type of the field)", "`fun`"]);

    let err = failure("class C { pub fun f(1) }");
    assert!(err.fatal);
    assert_eq!(err.span, 14..17);
    assert_eq!(err.got, Some("fun".to_string()));
    assert_eq!(
        err.expected,
        vec![
            "identifier (to set the name of the field)",
            "identifier (to define a new arg)",
            "`this` (to denote that the function takes an instance)",
            "`mut` (to begin the phrase `mut this` that denotes that the function takes a mutable instance)",
        ]
    );
}

#[test]
fn a_broken_constraint_block_is_fatal() {
    let err = failure("interface I { <T> pub fun f() }");
    assert!(err.fatal);
    assert_eq!(err.span, 18..21);
    assert_eq!(err.expected, vec!["`{` (to start the constraint block)"]);

    let err = failure("interface I { <T> { pub fun f() ");
    assert!(err.fatal);
    assert!(err.is_eof);
    assert_eq!(
        err.expected,
        vec![
            "privacy specifier (to create a method with the specified visibility)",
            "`<` (to create a new constraint block)",
            "`}` (to end the constraint block)",
        ]
    );

    let err = failure("interface I { <T, T> { } }");
    assert!(err.fatal);
    assert_eq!(err.span, 18..19);
    assert_eq!(err.expected, vec!["a unique generic name"]);
}

#[test]
fn a_comment_before_a_constraint_block_is_dropped() {
    let source = "class C { /* note */ <T> { } }";
    match only_statement(source) {
        TopLevelAstNode::ClassDec(_, dec) => {
            assert_eq!(dec.methods.len(), 1);
            match &dec.methods[0] {
                MethodOrConstraintAstNode::Constraint(span, _, methods) => {
                    assert_eq!(*span, offset(source, "<T>")..offset(source, " }") + 2);
                    assert!(methods.is_empty());
                }
                other => panic!("unexpected entry {:?}", other),
            }
        }
        other => panic!("unexpected statement {:?}", other),
    }
}

#[test]
fn comments_stack_on_a_method() {
    let source = "class C { // one\n // two\n pub fun f() }";
    match only_statement(source) {
        TopLevelAstNode::ClassDec(_, dec) => match &dec.methods[0] {
            MethodOrConstraintAstNode::Method(
                span,
                PossiblyDocumentedMethodAstNode::DocumentedMethod(_, comment, inner),
            ) => {
                assert_eq!(*span, offset(source, "// one")..offset(source, " }"));
                assert_eq!(*comment, "// one");
                match &**inner {
                    PossiblyDocumentedMethodAstNode::DocumentedMethod(span, comment, inner) => {
                        assert_eq!(*span, offset(source, "// two")..offset(source, " }"));
                        assert_eq!(*comment, "// two");
                        assert!(matches!(
                            **inner,
                            PossiblyDocumentedMethodAstNode::BaseMethod(..)
                        ));
                    }
                    other => panic!("unexpected method {:?}", other),
                }
            }
            other => panic!("unexpected entry {:?}", other),
        },
        other => panic!("unexpected statement {:?}", other),
    }
}

#[test]
fn a_class_cut_short_in_a_method_has_found_nothing() {
    let err = failure("class C { pub x -> Int, pub fun f(");
    assert!(err.fatal);
    assert!(err.is_eof);
    assert_eq!(err.span, usize::MAX..usize::MAX);
    assert_eq!(err.got, None);
    assert_eq!(
        err.expected,
        vec![
            "identifier (to set the name of the field)",
            "identifier (to define a new arg)",
            "`this` (to denote that the function takes an instance)",
            "`mut` (to begin the phrase `mut this` that denotes that the function takes a mutable instance)",
        ]
    );
    assert_eq!(
        err.message(),
        "unexpected end of input, expected identifier (to set the name of the field) or \
         identifier (to define a new arg) or `this` (to denote that the function takes an \
         instance) or `mut` (to begin the phrase `mut this` that denotes that the function takes \
         a mutable instance)"
    );
}

#[test]
fn a_struct_cut_short_in_a_method_has_found_nothing() {
    let err = failure("struct S { pub x -> Int, pub fun f(");
    assert!(err.fatal);
    assert!(err.is_eof);
    assert_eq!(err.span, usize::MAX..usize::MAX);
    assert_eq!(err.got, None);
    assert_eq!(err.expected.len(), 4);
    assert_eq!(err.expected[0], "identifier (to set the name of the field)");
}

#[test]
fn a_body_that_is_not_closed_after_a_token_has_found_nothing() {
    let err = failure("interface I { pub fun f()");
    assert!(err.fatal);
    assert!(err.is_eof);
    assert_eq!(err.got, None);
    assert_eq!(err.span, usize::MAX..usize::MAX);
}
