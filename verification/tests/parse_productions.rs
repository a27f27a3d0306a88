use uckc::frontend::parser::lexer::get_custom_lexer_from_string;
use uckc::frontend::parser::lexer::logos_lexer::LexerToken;
use uckc::frontend::parser::proper_parser::ast::fields::FieldAstNode;
use uckc::frontend::parser::proper_parser::ast::methods::AstMethodArgument;
use uckc::frontend::parser::proper_parser::ast::patterns::AstDestructuringPattern;
use uckc::frontend::parser::proper_parser::ast::publicity::{
    AstClassItemPublicity, AstPublicity, InterfaceMethodPublicity,
};
use uckc::frontend::parser::proper_parser::ast::types::{AstType, GenericName};
use uckc::frontend::parser::proper_parser::expressions::parse_block_expr;
use uckc::frontend::parser::proper_parser::extends_implements::{parse_extends, parse_implements};
use uckc::frontend::parser::proper_parser::fields::{parse_field, parse_fields_until_none_are_left};
use uckc::frontend::parser::proper_parser::get_ast_from_custom_lexer;
use uckc::frontend::parser::proper_parser::methods::{
    parse_method, parse_method_args, parse_methods_until_none_are_found,
    parse_possibly_documented_method_or_constraint_block,
};
use uckc::frontend::parser::proper_parser::patterns::parse_destructuring_pattern;
use uckc::frontend::parser::proper_parser::publicity::ParsePublicity;
use uckc::frontend::parser::proper_parser::top_level::{
    parse_top_level, parse_top_level_documentation_comment,
};
use uckc::frontend::parser::proper_parser::types::{
    parse_generics, parse_name_and_generics, parse_type, parse_type_alias,
};
use uckc::frontend::parser::proper_parser::utility_things::{
    call_error, expect_semicolon, expect_token, expect_token_with_optional_span, flush_comments,
    list1, list2, list3,
};

#[test]
fn lists_of_descriptions() {
    assert_eq!(list1("a"), vec!["a"]);
    assert_eq!(list2("a", "b"), vec!["a", "b"]);
    assert_eq!(list3("a", "b", "c"), vec!["a", "b", "c"]);
}

#[test]
fn flush_comments_stops_at_the_first_token_that_is_no_comment() {
    let mut lxr = get_custom_lexer_from_string("// a\n /* b */ x // c");
    flush_comments(&mut lxr);
    assert_eq!(lxr.span(), Some(14..15));
    assert_eq!(lxr.next(), Some(LexerToken::Identifier("x")));
    flush_comments(&mut lxr);
    assert_eq!(lxr.span(), None);
    assert_eq!(lxr.next(), None);
}

#[test]
fn expect_token_takes_a_token_of_the_class() {
    let mut lxr = get_custom_lexer_from_string("name ;");
    let token = expect_token(&mut lxr, LexerToken::Identifier(""), vec!["a name"]).unwrap();
    assert_eq!(token, LexerToken::Identifier("name"));
    assert_eq!(lxr.span(), Some(0..4));
    assert_eq!(expect_semicolon(&mut lxr).unwrap(), LexerToken::Semicolon);
    assert_eq!(lxr.next(), None);
}

#[test]
fn expect_token_fails_fatally_and_takes_the_token() {
    let mut lxr = get_custom_lexer_from_string("name ;");
    let err = expect_token(&mut lxr, LexerToken::Comma, vec!["`,`"]).unwrap_err();
    assert!(err.fatal);
    assert!(!err.is_eof);
    assert_eq!(err.span, 0..4);
    assert_eq!(err.got, Some("name".to_string()));
    assert_eq!(err.expected, vec!["`,`"]);
    assert_eq!(lxr.next(), Some(LexerToken::Semicolon));

    let err = expect_token(&mut lxr, LexerToken::Comma, vec!["`,`"]).unwrap_err();
    assert!(err.fatal);
    assert!(err.is_eof);
    assert_eq!(err.span, usize::MAX..usize::MAX);
    assert_eq!(err.got, None);
}

#[test]
fn a_failure_can_be_reported_at_another_span() {
    let mut lxr = get_custom_lexer_from_string("a b");
    let err = expect_token_with_optional_span(&mut lxr, LexerToken::Comma, vec!["`,`"], Some(7..9))
        .unwrap_err();
    assert_eq!(err.span, 7..9);
    assert_eq!(err.got, Some("a".to_string()));
}

#[test]
fn a_missing_semicolon_is_reported_at_the_current_token() {
    let mut lxr = get_custom_lexer_from_string("a b");
    lxr.next();
    let err = expect_semicolon(&mut lxr).unwrap_err();
    assert!(err.fatal);
    assert_eq!(err.span, 0..1);
    assert_eq!(err.got, Some("b".to_string()));
    assert_eq!(err.expected, vec!["`;`"]);

    let mut lxr = get_custom_lexer_from_string("b");
    let err = expect_semicolon(&mut lxr).unwrap_err();
    assert_eq!(err.span, 0..1);
}

#[test]
fn call_error_reports_the_current_token_or_the_end() {
    let mut lxr = get_custom_lexer_from_string("a");
    let token = lxr.next();
    let err = call_error(&lxr, token, vec!["x"], false);
    assert!(!err.fatal);
    assert_eq!(err.span, 0..1);
    assert_eq!(err.got, Some("a".to_string()));
    assert_eq!(err.expected, vec!["x"]);
    let token = lxr.next();
    let err = call_error(&lxr, token, vec!["y"], true);
    assert!(err.fatal);
    assert!(err.is_eof);
    assert_eq!(err.got, None);
    assert_eq!(err.expected, vec!["y"]);
}

#[test]
fn each_kind_of_visibility_reads_its_own_markers() {
    let plain = |source: &'static str| {
        let mut lxr = get_custom_lexer_from_string(source);
        AstPublicity::parse_publicity(&mut lxr).ok()
    };
    assert_eq!(plain("pub"), Some(AstPublicity::Public));
    assert_eq!(plain("priv"), Some(AstPublicity::Private));
    assert_eq!(plain("mpriv"), Some(AstPublicity::ModulePrivate));
    assert_eq!(plain("prot"), None);
    assert_eq!(plain("mprot"), None);
    assert_eq!(plain("public"), None);
    assert_eq!(plain(""), None);

    let class = |source: &'static str| {
        let mut lxr = get_custom_lexer_from_string(source);
        AstClassItemPublicity::parse_publicity(&mut lxr).ok()
    };
    assert_eq!(class("pub"), Some(AstClassItemPublicity::Public));
    assert_eq!(class("priv"), Some(AstClassItemPublicity::Private));
    assert_eq!(class("mpriv"), Some(AstClassItemPublicity::ModulePrivate));
    assert_eq!(class("prot"), Some(AstClassItemPublicity::Protected));
    assert_eq!(class("mprot"), Some(AstClassItemPublicity::ModuleProtected));
    assert_eq!(class("fun"), None);

    let interface = |source: &'static str| {
        let mut lxr = get_custom_lexer_from_string(source);
        InterfaceMethodPublicity::parse_publicity(&mut lxr).ok()
    };
    assert_eq!(interface("pub"), Some(InterfaceMethodPublicity::Public));
    assert_eq!(interface("priv"), None);
    assert_eq!(interface("prot"), None);
}

#[test]
fn a_missing_marker_is_not_fatal_and_takes_no_token() {
    let mut lxr = get_custom_lexer_from_string("fun f");
    let err = AstPublicity::parse_publicity(&mut lxr).unwrap_err();
    assert!(!err.fatal);
    assert_eq!(err.span, 0..3);
    assert_eq!(err.got, Some("fun".to_string()));
    assert_eq!(
        err.expected,
        vec!["[pub, mpriv, or priv] (to declare the publicity of a struct item)"]
    );
    assert_eq!(lxr.next(), Some(LexerToken::Function));

    let mut lxr = get_custom_lexer_from_string("");
    let err = AstClassItemPublicity::parse_publicity(&mut lxr).unwrap_err();
    assert!(!err.fatal);
    assert!(err.is_eof);
    assert_eq!(
        err.expected,
        vec!["[pub, mprot, prot, mpriv, or priv] (to declare the publicity of a class item)"]
    );

    let mut lxr = get_custom_lexer_from_string("x");
    let err = InterfaceMethodPublicity::parse_publicity(&mut lxr).unwrap_err();
    assert_eq!(err.expected, vec!["[pub] (to declare the publicity of an interface method)"]);
}

#[test]
fn parse_type_reads_a_chain() {
    let mut lxr = get_custom_lexer_from_string("A.B<C, D.E>.F rest");
    match parse_type(&mut lxr, None).unwrap() {
        AstType::MemberOf(span, of, name) => {
            assert_eq!(span, 0..13);
            assert_eq!(name, "F");
            match *of {
                AstType::GenericOf(span, of, generics) => {
                    assert_eq!(span, 0..11);
                    assert_eq!(of.get_span(), 0..3);
                    assert_eq!(generics.span, 3..11);
                    assert_eq!(generics.entries.len(), 2);
                    assert!(matches!(generics.entries[0].name, GenericName::Positional(0)));
                    assert_eq!(generics.entries[0].span, 4..5);
                    assert!(matches!(generics.entries[1].name, GenericName::Positional(1)));
                    assert_eq!(generics.entries[1].span, 7..10);
                }
                other => panic!("unexpected type {:?}", other),
            }
        }
        other => panic!("unexpected type {:?}", other),
    }
    assert_eq!(lxr.span(), Some(14..18));
    assert_eq!(lxr.next(), Some(LexerToken::Identifier("rest")));
}

#[test]
fn parse_type_goes_on_from_a_type() {
    let mut lxr = get_custom_lexer_from_string("B");
    match parse_type(&mut lxr, Some(AstType::RootName(3..4, "A"))).unwrap() {
        AstType::MemberOf(span, of, name) => {
            assert_eq!(span, 3..1);
            assert_eq!(name, "B");
            assert_eq!(of.get_span(), 3..4);
        }
        other => panic!("unexpected type {:?}", other),
    }
}

#[test]
fn parse_type_takes_no_comment() {
    let mut lxr = get_custom_lexer_from_string("/* c */ A");
    let err = parse_type(&mut lxr, None).unwrap_err();
    assert!(err.fatal);
    assert_eq!(err.span, 0..7);
    assert_eq!(err.expected, vec!["identifier (as part of a type)"]);
}

#[test]
fn type_arguments_cannot_be_empty() {
    let mut lxr = get_custom_lexer_from_string("A<>");
    let err = parse_type(&mut lxr, None).unwrap_err();
    assert!(err.fatal);
    assert_eq!(err.span, 2..3);
    assert_eq!(err.expected, vec!["identifier (as part of a type)"]);
}

#[test]
fn parse_generics_reads_declared_generics() {
    let mut lxr = get_custom_lexer_from_string("< /* a */ T , U : A.B , V : C<D> > x");
    lxr.next();
    let generics = parse_generics(&mut lxr, true).unwrap();
    assert_eq!(generics.span, 0..34);
    assert_eq!(generics.entries.len(), 3);
    assert!(matches!(generics.entries[0].name, GenericName::Named("T")));
    assert_eq!(generics.entries[0].span, 10..11);
    assert!(generics.entries[0].bound.is_none());
    assert!(matches!(generics.entries[1].name, GenericName::Named("U")));
    assert_eq!(generics.entries[1].span, 14..21);
    assert_eq!(generics.entries[1].bound.as_ref().unwrap().get_span(), 18..21);
    assert!(matches!(generics.entries[2].name, GenericName::Named("V")));
    assert_eq!(generics.entries[2].span, 24..32);
    assert_eq!(lxr.span(), Some(33..34));
    assert_eq!(lxr.next(), Some(LexerToken::Identifier("x")));
}

#[test]
fn declared_generics_may_be_empty_or_end_in_a_comma() {
    let mut lxr = get_custom_lexer_from_string("<>");
    lxr.next();
    let generics = parse_generics(&mut lxr, true).unwrap();
    assert_eq!(generics.span, 0..2);
    assert!(generics.entries.is_empty());

    let mut lxr = get_custom_lexer_from_string("<T,>");
    lxr.next();
    let generics = parse_generics(&mut lxr, true).unwrap();
    assert_eq!(generics.span, 0..4);
    assert_eq!(generics.entries.len(), 1);
}

#[test]
fn broken_generics_are_fatal() {
    let declared = |source: &'static str| {
        let mut lxr = get_custom_lexer_from_string(source);
        lxr.next();
        parse_generics(&mut lxr, true).unwrap_err()
    };
    let err = declared("<1>");
    assert!(err.fatal);
    assert_eq!(err.span, 1..2);
    assert_eq!(
        err.expected,
        vec!["`>` (to close the generics)", "identifier (to create a new generic)"]
    );
    let err = declared("<T U>");
    assert!(err.fatal);
    assert_eq!(err.span, 3..4);
    assert_eq!(
        err.expected,
        vec![
            "`>` (to close the generics)",
            "`,` (to signal the next generic)",
            "`:` (to define a constraint on the current generic)",
        ]
    );
    let err = declared("<T: >");
    assert!(err.fatal);
    assert_eq!(err.span, 4..5);
    assert_eq!(err.expected, vec!["identifier (as part of a type)"]);
    let err = declared("<T: A B>");
    assert!(err.fatal);
    assert_eq!(err.span, 6..7);
    assert_eq!(
        err.expected,
        vec!["`>` (to close the generics)", "`,` (to signal the next generic)"]
    );
    let err = declared("<T");
    assert!(err.fatal);
    assert!(err.is_eof);
    let err = declared("<");
    assert!(err.fatal);
    assert!(err.is_eof);
    assert_eq!(
        err.expected,
        vec!["`>` (to close the generics)", "identifier (to create a new generic)"]
    );
}

#[test]
fn a_name_with_duplicate_generics_is_rejected() {
    let mut lxr = get_custom_lexer_from_string("Foo<T, T>");
    let err = parse_name_and_generics(&mut lxr).unwrap_err();
    assert!(err.fatal);
    assert!(!err.is_eof);
    assert_eq!(err.span, 7..8);
    assert_eq!(err.got, Some("T".to_string()));
    assert_eq!(err.expected, vec!["a unique generic name"]);

    let mut lxr = get_custom_lexer_from_string("Foo<T: A, T>");
    let err = parse_name_and_generics(&mut lxr).unwrap_err();
    assert!(err.fatal);
    assert_eq!(err.span, 10..11);

    let mut lxr = get_custom_lexer_from_string("Foo<T, T: A>");
    let err = parse_name_and_generics(&mut lxr).unwrap_err();
    assert!(err.fatal);
    assert_eq!(err.span, 7..8);
    assert_eq!(err.expected, vec!["a unique generic name"]);
}

#[test]
fn a_name_with_generics() {
    let mut lxr = get_custom_lexer_from_string("/* c */ Foo /* d */ <T, U> {");
    match parse_name_and_generics(&mut lxr).unwrap() {
        AstType::GenericOf(span, of, generics) => {
            assert_eq!(span, 8..26);
            assert_eq!(of.get_span(), 8..11);
            assert_eq!(generics.span, 20..26);
            assert_eq!(generics.entries.len(), 2);
        }
        other => panic!("unexpected type {:?}", other),
    }
    assert_eq!(lxr.next(), Some(LexerToken::LeftCurlyBrace));
}

#[test]
fn parse_type_alias_starts_at_the_current_token() {
    let mut lxr = get_custom_lexer_from_string("type A = B;");
    lxr.next();
    let alias = parse_type_alias(&mut lxr).unwrap();
    assert_eq!(alias.span, 0..11);

    let mut lxr = get_custom_lexer_from_string("A = B;");
    let alias = parse_type_alias(&mut lxr).unwrap();
    assert_eq!(alias.span, usize::MAX..6);
}

#[test]
fn a_plain_pattern_leaves_what_follows() {
    let mut lxr = get_custom_lexer_from_string("a from");
    match parse_destructuring_pattern(&mut lxr).unwrap() {
        AstDestructuringPattern::Name(span, name) => {
            assert_eq!(span, 0..1);
            assert_eq!(name, "a");
        }
        other => panic!("unexpected pattern {:?}", other),
    }
    assert_eq!(lxr.next(), Some(LexerToken::From));
}

#[test]
fn a_pattern_that_does_not_start_is_no_fatal_failure() {
    let mut lxr = get_custom_lexer_from_string("// c\n from");
    let err = parse_destructuring_pattern(&mut lxr).unwrap_err();
    assert!(!err.fatal);
    assert_eq!(err.span, 6..10);
    assert_eq!(err.got, Some("from".to_string()));
    assert_eq!(err.expected, vec!["identifier (as part of a destructuring pattern)"]);

    let mut lxr = get_custom_lexer_from_string("");
    let err = parse_destructuring_pattern(&mut lxr).unwrap_err();
    assert!(!err.fatal);
    assert!(err.is_eof);

    let mut lxr = get_custom_lexer_from_string("a:");
    let err = parse_destructuring_pattern(&mut lxr).unwrap_err();
    assert!(err.fatal);
    assert!(err.is_eof);
}

#[test]
fn an_empty_block_of_patterns() {
    let mut lxr = get_custom_lexer_from_string("a: {}");
    match parse_destructuring_pattern(&mut lxr).unwrap() {
        AstDestructuringPattern::Destructured(span, name, children) => {
            assert_eq!(span, 0..5);
            assert_eq!(name, "a");
            assert!(children.is_empty());
        }
        other => panic!("unexpected pattern {:?}", other),
    }
}

#[test]
fn parse_field_reads_one_field() {
    let mut lxr = get_custom_lexer_from_string("// doc\n mpriv /* a */ count /* b */ -> /* c */ Map<K, V> ,");
    let field: FieldAstNode<'_, AstPublicity> = parse_field(&mut lxr).unwrap();
    assert_eq!(field.publicity, AstPublicity::ModulePrivate);
    assert_eq!(field.name, "count");
    assert_eq!(field.span, 8..56);
    assert_eq!(field.field_type.get_span(), 47..56);
    assert_eq!(lxr.next(), Some(LexerToken::Comma));
}

#[test]
fn a_field_fails_fatally_only_in_its_type() {
    let field = |source: &'static str| {
        let mut lxr = get_custom_lexer_from_string(source);
        parse_field::<AstPublicity>(&mut lxr).unwrap_err()
    };
    let err = field("x -> T");
    assert!(!err.fatal);
    assert_eq!(err.span, 0..1);
    let err = field("pub fun");
    assert!(!err.fatal);
    assert_eq!(err.span, 4..7);
    assert_eq!(err.expected, vec!["identifier (to set the name of the field)"]);
    let err = field("pub x :");
    assert!(!err.fatal);
    assert_eq!(err.span, 6..7);
    assert_eq!(err.expected, vec!["`->` (to denote the type of the field)"]);
    let err = field("pub x");
    assert!(!err.fatal);
    assert!(err.is_eof);
    let err = field("pub x -> 1");
    assert!(err.fatal);
    assert_eq!(err.span, 9..10);
    assert_eq!(err.expected, vec!["identifier (as part of a type)"]);
}

#[test]
fn a_list_of_fields_ends_before_what_is_no_field() {
    let mut lxr = get_custom_lexer_from_string("pub a -> A, priv b -> B, /* m */ pub fun f()");
    let (fields, ended_by) = parse_fields_until_none_are_left::<AstPublicity>(&mut lxr).unwrap();
    assert_eq!(fields.len(), 2);
    assert!(!ended_by.fatal);
    assert_eq!(ended_by.span, 37..40);
    assert_eq!(ended_by.got, Some("fun".to_string()));
    assert_eq!(ended_by.expected, vec!["identifier (to set the name of the field)"]);
    assert_eq!(lxr.next(), Some(LexerToken::Comment));

    let mut lxr = get_custom_lexer_from_string("pub a -> A /* c */ }");
    let (fields, ended_by) = parse_fields_until_none_are_left::<AstPublicity>(&mut lxr).unwrap();
    assert_eq!(fields.len(), 1);
    assert!(!ended_by.fatal);
    assert_eq!(ended_by.span, 19..20);
    assert_eq!(ended_by.expected, vec!["`,` (to begin to declare the next field)"]);
    assert_eq!(lxr.next(), Some(LexerToken::Comment));

    let mut lxr = get_custom_lexer_from_string("");
    let (fields, ended_by) = parse_fields_until_none_are_left::<AstPublicity>(&mut lxr).unwrap();
    assert!(fields.is_empty());
    assert!(ended_by.is_eof);
    assert!(!ended_by.fatal);
}

#[test]
fn a_fatal_failure_in_a_field_is_the_failure_of_the_list() {
    let mut lxr = get_custom_lexer_from_string("pub a -> A, pub b -> ;");
    let err = parse_fields_until_none_are_left::<AstPublicity>(&mut lxr).unwrap_err();
    assert!(err.fatal);
    assert_eq!(err.span, 21..22);
}

#[test]
fn clauses_are_there_or_not() {
    let mut lxr = get_custom_lexer_from_string("extends A.B implements C {");
    assert!(parse_implements(&mut lxr).unwrap().is_none());
    assert_eq!(parse_extends(&mut lxr).unwrap().unwrap().get_span(), 8..11);
    assert!(parse_extends(&mut lxr).unwrap().is_none());
    assert_eq!(parse_implements(&mut lxr).unwrap().unwrap().get_span(), 23..24);
    assert!(parse_implements(&mut lxr).unwrap().is_none());
    assert_eq!(lxr.next(), Some(LexerToken::LeftCurlyBrace));
    assert!(parse_extends(&mut lxr).unwrap().is_none());
}

#[test]
fn a_clause_without_a_type_is_fatal() {
    let mut lxr = get_custom_lexer_from_string("extends {");
    let err = parse_extends(&mut lxr).unwrap_err();
    assert!(err.fatal);
    assert_eq!(err.span, 8..9);
    assert_eq!(err.expected, vec!["identifier (as part of a type)"]);
}

#[test]
fn method_arguments() {
    let mut lxr = get_custom_lexer_from_string("/* c */ (this, mut this, x -> A.B, y -> C<D>,) {");
    let args = parse_method_args(&mut lxr).unwrap();
    assert_eq!(args.len(), 4);
    assert!(matches!(args[0], AstMethodArgument::This(_)));
    assert_eq!(args[0].get_span(), 9..13);
    assert!(matches!(args[1], AstMethodArgument::ThisMut(_)));
    assert_eq!(args[1].get_span(), 15..23);
    match &args[2] {
        AstMethodArgument::Regular(span, name, arg_type) => {
            assert_eq!(*span, 25..33);
            assert_eq!(*name, "x");
            assert_eq!(arg_type.get_span(), 30..33);
        }
        other => panic!("unexpected argument {:?}", other),
    }
    assert_eq!(args[3].get_span(), 35..44);
    assert_eq!(lxr.span(), Some(45..46));
    assert_eq!(lxr.next(), Some(LexerToken::LeftCurlyBrace));

    let mut lxr = get_custom_lexer_from_string("()");
    assert!(parse_method_args(&mut lxr).unwrap().is_empty());
}

#[test]
fn parse_method_starts_at_its_marker() {
    let mut lxr = get_custom_lexer_from_string("priv fun map<U>(this, f -> Fn<T, U>) -> List<U> }");
    lxr.next();
    let method = parse_method(&mut lxr, AstPublicity::Private).unwrap();
    assert_eq!(method.publicity, AstPublicity::Private);
    assert_eq!(method.span, 0..47);
    assert_eq!(method.new_type.get_span(), 9..15);
    assert_eq!(method.args.len(), 2);
    assert_eq!(method.return_type.as_ref().unwrap().get_span(), 40..47);
    assert_eq!(lxr.next(), Some(LexerToken::RightCurlyBrace));
}

#[test]
fn a_method_body_takes_no_token() {
    let mut lxr = get_custom_lexer_from_string("{ }");
    assert!(parse_block_expr(&mut lxr).is_ok());
    assert_eq!(lxr.span(), None);
    assert_eq!(lxr.next(), Some(LexerToken::LeftCurlyBrace));
}

#[test]
fn what_starts_no_method_is_a_failure_that_is_not_fatal() {
    let mut lxr = get_custom_lexer_from_string("}");
    let err = parse_possibly_documented_method_or_constraint_block::<AstPublicity>(&mut lxr)
        .unwrap_err();
    assert!(!err.fatal);
    assert_eq!(err.span, 0..1);
    assert_eq!(err.got, Some("}".to_string()));
    assert_eq!(
        err.expected,
        vec![
            "privacy specifier (to create a method with the specified visibility)",
            "`<` (to create a new constraint block)",
        ]
    );
    assert_eq!(lxr.next(), Some(LexerToken::RightCurlyBrace));
}

#[test]
fn a_list_of_methods_ends_before_what_starts_no_method() {
    let mut lxr = get_custom_lexer_from_string("pub fun f(), pub fun g() priv fun h() // end\n }");
    let (methods, ended_by) =
        parse_methods_until_none_are_found::<AstPublicity>(&mut lxr).unwrap();
    assert_eq!(methods.len(), 3);
    assert_eq!(methods[0].get_span(), 0..11);
    assert_eq!(methods[1].get_span(), 13..24);
    assert_eq!(methods[2].get_span(), 25..37);
    assert!(!ended_by.fatal);
    assert!(ended_by.is_eof == false);
    assert_eq!(ended_by.span, 46..47);
    assert_eq!(lxr.next(), Some(LexerToken::Comment));
}

#[test]
fn a_comment_without_a_method_ends_a_list_of_methods() {
    let mut lxr = get_custom_lexer_from_string("pub fun f() // end");
    let (methods, ended_by) =
        parse_methods_until_none_are_found::<AstPublicity>(&mut lxr).unwrap();
    assert_eq!(methods.len(), 1);
    assert!(!ended_by.fatal);
    assert!(ended_by.is_eof);
    assert_eq!(lxr.next(), Some(LexerToken::Comment));
}

#[test]
fn a_fatal_failure_in_a_method_is_the_failure_of_the_list() {
    let mut lxr = get_custom_lexer_from_string("pub fun f(), pub fun (");
    let err = parse_methods_until_none_are_found::<AstPublicity>(&mut lxr).unwrap_err();
    assert!(err.fatal);
    assert_eq!(err.span, 21..22);
    assert_eq!(lxr.next(), None);
}

#[test]
fn parse_top_level_reads_one_statement() {
    let mut lxr = get_custom_lexer_from_string("; type A = B; type C = D;");
    let first = parse_top_level(&mut lxr).unwrap();
    assert_eq!(first.get_span(), 2..13);
    let second = parse_top_level(&mut lxr).unwrap();
    assert_eq!(second.get_span(), 14..25);
    let err = parse_top_level(&mut lxr).unwrap_err();
    assert!(!err.fatal);
    assert!(err.is_eof);
    assert_eq!(err.span, usize::MAX..usize::MAX);
}

#[test]
fn a_documentation_comment_starts_at_the_current_token() {
    let mut lxr = get_custom_lexer_from_string("/* doc */ type A = B;");
    lxr.next();
    let node = parse_top_level_documentation_comment(&mut lxr).unwrap();
    assert_eq!(node.get_span(), 0..21);
}

#[test]
fn the_driver_goes_on_from_where_the_cursor_stands() {
    let mut lxr = get_custom_lexer_from_string("type A = B; type C = D;");
    parse_top_level(&mut lxr).unwrap();
    let program = get_ast_from_custom_lexer(&mut lxr).unwrap();
    assert_eq!(program.len(), 1);
    assert_eq!(program[0].get_span(), 12..23);
    assert!(get_ast_from_custom_lexer(&mut lxr).unwrap().is_empty());
}

#[test]
fn parsing_again_from_a_saved_position_gives_the_same_spans() {
    let mut lxr = get_custom_lexer_from_string("type A<T> = B.C<T>; import x from y;");
    let saved = lxr.save_position();
    let first: Vec<_> = get_ast_from_custom_lexer(&mut lxr)
        .unwrap()
        .iter()
        .map(|node| format!("{:?}", node))
        .collect();
    lxr.return_to_position(saved);
    let second: Vec<_> = get_ast_from_custom_lexer(&mut lxr)
        .unwrap()
        .iter()
        .map(|node| format!("{:?}", node))
        .collect();
    assert_eq!(first.len(), 2);
    assert_eq!(first, second);
}

fn spans_of(t: &AstType<'_>, spans: &mut Vec<std::ops::Range<usize>>) {
    spans.push(t.get_span());
    match t {
        AstType::RootName(_, _) => {}
        AstType::MemberOf(_, of, _) => spans_of(of, spans),
        AstType::GenericOf(_, of, generics) => {
            spans_of(of, spans);
            for entry in &generics.entries {
                if let Some(bound) = &entry.bound {
                    spans_of(bound, spans);
                }
            }
        }
    }
}

#[test]
fn every_type_inside_a_type_covers_its_own_tokens() {
    let mut lxr = get_custom_lexer_from_string("A<B<C.D>, E>.F<G>");
    let t = parse_type(&mut lxr, None).unwrap();
    let mut spans = Vec::new();
    spans_of(&t, &mut spans);
    assert_eq!(
        spans,
        vec![0..17, 0..14, 0..12, 0..1, 2..8, 2..3, 4..7, 4..5, 10..11, 15..16]
    );
    assert!(spans.iter().all(|span| span.start < span.end));
    assert_eq!(lxr.next(), None);
}

#[test]
fn every_type_inside_a_name_with_generics_covers_its_own_tokens() {
    let mut lxr = get_custom_lexer_from_string("Map /* of */ <K: Key.Of<V>, V>");
    let t = parse_name_and_generics(&mut lxr).unwrap();
    let mut spans = Vec::new();
    spans_of(&t, &mut spans);
    assert_eq!(spans, vec![0..30, 0..3, 17..26, 17..23, 17..20, 24..25]);
}
