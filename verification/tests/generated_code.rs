use proc_macro2::TokenStream;
use rbatis::py_sql::{
    collect_args, filter_args_context_id, impl_macro_py_sql, is_paged, not_async_message, py_fn_code,
    sql_text, uses_page, ArgTokens, PyFn, PySqlError,
};
use rbatis::tokens::can_be_ident;

fn stream(text: &str) -> TokenStream {
    text.parse::<TokenStream>().unwrap()
}

fn names(list: &[&str]) -> Vec<String> {
    list.iter().map(|s| s.to_string()).collect()
}

fn py_fn(inputs: &str, return_ty: &str, arg_names: &[&str]) -> PyFn {
    PyFn {
        name: stream("py_select"),
        inputs: stream(inputs),
        return_ty: stream(return_ty),
        body: stream("check ( ) ;"),
        is_async: true,
        arg_names: names(arg_names),
    }
}

fn code(target: &PyFn, sql: &str, is_fetch: bool, page_req: &str) -> String {
    let args = vec![stream("RB"), stream(sql)];
    impl_macro_py_sql(target, &args, is_fetch, &stream(page_req)).unwrap().to_string()
}

#[test]
fn arguments_are_collected_in_order() {
    let (inserted, context) = filter_args_context_id("rb", &names(&["rb", "name", "_1"])).unwrap();
    assert_eq!(
        inserted.to_string(),
        stream(
            "rb_args . insert (\"name\" . to_string () , serde_json :: json ! (name)) ;
             rb_args . insert (\"_1\" . to_string () , serde_json :: json ! (_1)) ;"
        )
        .to_string()
    );
    assert_eq!(context.to_string(), "\"\"");
}

#[test]
fn last_context_id_wins_and_is_collected() {
    for last in ["ctx_id", "context_id", "tx_id"] {
        let list = names(&["tx_id", "a", last]);
        let (inserted, context) = filter_args_context_id("RB", &list).unwrap();
        assert_eq!(context.to_string(), last);
        assert!(inserted.to_string().contains(&format!("\"{}\"", last)));
    }
}

#[test]
fn the_orm_is_no_context() {
    let (inserted, context) = filter_args_context_id("tx_id", &names(&["tx_id"])).unwrap();
    assert!(inserted.is_empty());
    assert_eq!(context.to_string(), "\"\"");
}

#[test]
fn invalid_names_are_refused() {
    for bad in ["", "1", "1a", "a-b", "a b", "r#type", "é!"] {
        let list = names(&["ok", bad, ""]);
        assert_eq!(
            filter_args_context_id("RB", &list).err(),
            Some(PySqlError::InvalidIdent(bad.to_string()))
        );
        assert!(!can_be_ident(bad));
    }
    for good in ["_", "a", "A9_", "été", "self", "数"] {
        assert!(can_be_ident(good));
        assert!(filter_args_context_id("RB", &names(&[good])).is_ok());
    }
}

#[test]
fn names_outside_ascii_are_kept() {
    for name in ["été", "数", "größe_1", "a数"] {
        let (inserted, context) = filter_args_context_id("RB", &names(&[name])).unwrap();
        let expected = format!(
            "rb_args . insert (\"{}\" . to_string () , serde_json :: json ! ({})) ;",
            name, name
        );
        assert_eq!(inserted.to_string(), stream(&expected).to_string());
        assert_eq!(context.to_string(), "\"\"");
    }
}

#[test]
fn both_arguments_of_the_macro_are_needed() {
    let mut target = py_fn("", "()", &["1"]);
    for is_async in [true, false] {
        target.is_async = is_async;
        for args in [vec![], vec![stream("RB")]] {
            assert_eq!(
                impl_macro_py_sql(&target, &args, true, &TokenStream::new()).err(),
                Some(PySqlError::MissingArgument)
            );
        }
    }
}

#[test]
fn there_is_code_for_every_async_function() {
    let mut target = py_fn("a : u8", "()", &["a", "数"]);
    for is_async in [true, false] {
        target.is_async = is_async;
        for count in 0..4usize {
            let args = vec![stream("RB"); count];
            let made = impl_macro_py_sql(&target, &args, false, &TokenStream::new());
            assert_eq!(made.is_err(), count < 2 || !is_async);
        }
    }
}

#[test]
fn arguments_after_the_second_are_ignored() {
    let target = py_fn("a : u8", "()", &["a", "tx_id"]);
    let two = vec![stream("RB"), stream("SQL")];
    let four = vec![stream("RB"), stream("SQL"), stream("a"), stream("1 + 2")];
    let none = TokenStream::new();
    assert_eq!(
        impl_macro_py_sql(&target, &two, true, &none).unwrap().to_string(),
        impl_macro_py_sql(&target, &four, true, &none).unwrap().to_string()
    );
}

#[test]
fn two_lists_of_parameters_add_up() {
    let lists: [&[&str]; 6] =
        [&[], &["a"], &["tx_id"], &["RB", "ctx_id"], &["b", "context_id", "数"], &["RB"]];
    for first in lists {
        for second in lists {
            let (code1, context1) = filter_args_context_id("RB", &names(first)).unwrap();
            let (code2, context2) = filter_args_context_id("RB", &names(second)).unwrap();
            let both = names(&[first, second].concat());
            let (code, context) = filter_args_context_id("RB", &both).unwrap();
            let mut added = code1;
            added.extend(code2);
            assert_eq!(code.to_string(), added.to_string());
            let wins = if context2.to_string() == "\"\"" { context1 } else { context2 };
            assert_eq!(context.to_string(), wins.to_string());
        }
    }
    let (code, context) = filter_args_context_id("RB", &names(&[])).unwrap();
    assert!(code.is_empty());
    assert_eq!(context.to_string(), "\"\"");
}

#[test]
fn collected_code_is_made_of_what_is_given() {
    let args = vec![ArgTokens { ident: stream("x . y"), label: stream("1 2") }];
    let (inserted, context) = collect_args("RB", &names(&["tx_id"]), &args);
    assert_eq!(
        inserted.to_string(),
        stream("rb_args . insert (1 2 . to_string () , serde_json :: json ! (x . y)) ;").to_string()
    );
    assert_eq!(context.to_string(), stream("x . y").to_string());
}

#[test]
fn fetching_function() {
    let target = py_fn("rb : & Rbatis , tx_id : & str", "Result < Vec < A > >", &["rb", "tx_id"]);
    let args = vec![stream("rb"), stream("\" select * from t \"")];
    let made = impl_macro_py_sql(&target, &args, true, &TokenStream::new()).unwrap();
    assert_eq!(
        made.to_string(),
        stream(
            "pub async fn py_select (rb : & Rbatis , tx_id : & str) -> Result < Vec < A > > {
                let mut rb_args = serde_json :: Map :: new () ;
                rb_args . insert (\"tx_id\" . to_string () , serde_json :: json ! (tx_id)) ;
                let mut rb_args = serde_json :: Value :: from (rb_args) ;
                check ( ) ;
                return rb . py_fetch (tx_id , & \" select * from t \" , & rb_args) . await ;
            }"
        )
        .to_string()
    );
}

#[test]
fn executing_function() {
    let made = code(&py_fn("", "Result < u64 >", &[]), "\"delete\"", false, "");
    assert!(made.contains("return RB . py_exec (\"\" , & \"delete\" , & rb_args) . await ;"));
}

#[test]
fn paging_function() {
    let target = py_fn("page : & PageRequest", "Result < Page < A > >", &["page"]);
    assert!(uses_page(&target.return_ty, &target.inputs));
    for is_fetch in [true, false] {
        let made = code(&target, "\"select\"", is_fetch, "page");
        assert!(made
            .contains("return RB . py_fetch_page (\"\" , & \"select\" , & rb_args , page) . await ;"));
    }
}

#[test]
fn a_page_is_asked_for_and_returned() {
    assert!(!uses_page(&stream("Result < Page < A > >"), &stream("page : PageRequest")));
    assert!(!uses_page(&stream("Result < A >"), &stream("page : & PageRequest")));
    let target = py_fn("page : & PageRequest", "Result < A >", &["page"]);
    let made = code(&target, "\"select\"", true, "page");
    assert!(made.contains("RB . py_fetch (\"\" , & \"select\" , & rb_args) . await ;"));
}

#[test]
fn only_async_functions_are_replaced() {
    let mut target = py_fn("a : u8", "()", &["1"]);
    target.is_async = false;
    let args = vec![stream("RB"), stream("\"select\"")];
    assert_eq!(
        impl_macro_py_sql(&target, &args, true, &TokenStream::new()).err(),
        Some(PySqlError::NotAsync(
            "[rbaits] 'fn py_select(a : u8)' must be  async fn! ".to_string()
        ))
    );
    target.is_async = true;
    assert_eq!(
        impl_macro_py_sql(&target, &args, true, &TokenStream::new()).err(),
        Some(PySqlError::InvalidIdent("1".to_string()))
    );
}

#[test]
fn statement_text_is_trimmed() {
    assert_eq!(sql_text(&stream(" \"select 1\" ")), "\"select 1\"");
    assert_eq!(sql_text(&stream("SQL")), "SQL");
}

#[test]
fn pages_are_told_by_the_printed_types() {
    assert!(is_paged("rbatis :: Result < Page < A > >", "page : & PageRequest"));
    assert!(!is_paged("Result < Page<A> >", "page : & PageRequest"));
    assert!(!is_paged("Result < Page < A > >", "page : &PageRequest"));
    assert_eq!(not_async_message("f", "a : u8"), "[rbaits] 'fn f(a : u8)' must be  async fn! ");
}

#[test]
fn code_is_put_around_what_is_given() {
    let target = py_fn("", "()", &[]);
    let args = vec![stream("RB"), stream("SQL")];
    let none = TokenStream::new();
    let made = py_fn_code(&target, &args, false, &none, &stream("a ; b ;"), &stream("c . d"));
    assert_eq!(
        made.to_string(),
        stream(
            "pub async fn py_select () -> () {
                let mut rb_args = serde_json :: Map :: new () ;
                a ; b ;
                let mut rb_args = serde_json :: Value :: from (rb_args) ;
                check ( ) ;
                return RB . py_exec (c . d , & SQL , & rb_args) . await ;
            }"
        )
        .to_string()
    );
}
