//! The code that `py_sql` puts in place of a function: it collects the
//! arguments into a JSON object, runs the statement with them and returns what
//! comes back.

use proc_macro2::{Span, TokenStream};
use vstd::prelude::*;
use vstd::string::*;

use crate::text::{contains, joined, trim};
use crate::tokens::{
    append, braces, call_site, can_be_ident, ident, ident_text, in_braces, in_parens, is_ident,
    is_word, joint, literal, mark, no_tokens, one, parens, print, printed, push_mark, push_marks,
    push_word, quoted, stands_for, tokens, Texts,
};

verus! {

/// The function that is replaced.
pub struct PyFn {
    /// Its name.
    pub name: TokenStream,
    /// Its parameters, as they stand between its parentheses.
    pub inputs: TokenStream,
    /// What it returns.
    pub return_ty: TokenStream,
    /// What stands in its body.
    pub body: TokenStream,
    pub is_async: bool,
    /// The names of its parameters.
    pub arg_names: Vec<String>,
}

/// Why there is no code.
#[derive(Debug, PartialEq, Eq)]
pub enum PySqlError {
    /// The ORM or the statement to run is not given.
    MissingArgument,
    /// The function is not async; the message says so.
    NotAsync(String),
    /// A parameter has this for a name, which is no identifier.
    InvalidIdent(String),
}

/// A parameter as it appears in the code.
pub struct ArgTokens {
    /// Its name as an identifier.
    pub ident: TokenStream,
    /// Its name as a string literal.
    pub label: TokenStream,
}

/// The parameter of this name is the id of the context to run in.
pub open spec fn is_context_name(name: Seq<char>) -> bool {
    name == "ctx_id"@ || name == "context_id"@ || name == "tx_id"@
}

/// The code that collects one argument.
pub open spec fn insert_tokens(ident: Texts, label: Texts) -> Texts {
    one("rb_args"@) + mark('.') + one("insert"@) + parens(
        label + mark('.') + one("to_string"@) + parens(Texts::empty()) + mark(',')
            + one("serde_json"@) + joint(':') + mark(':') + one("json"@) + mark('!')
            + parens(ident),
    ) + mark(';')
}

/// The code that collects the first `n` arguments, the ORM itself left out.
pub open spec fn inserts(
    rbatis_name: Seq<char>,
    names: Seq<String>,
    args: Seq<ArgTokens>,
    n: nat,
) -> Texts
    decreases n,
{
    if n == 0 {
        Texts::empty()
    } else if names[n - 1]@ == rbatis_name {
        inserts(rbatis_name, names, args, (n - 1) as nat)
    } else {
        inserts(rbatis_name, names, args, (n - 1) as nat) + insert_tokens(
            tokens(args[n - 1].ident),
            tokens(args[n - 1].label),
        )
    }
}

/// The context to run in: the last of the first `n` parameters that is one, or
/// the empty text.
pub open spec fn context_arg(
    rbatis_name: Seq<char>,
    names: Seq<String>,
    args: Seq<ArgTokens>,
    n: nat,
) -> Texts
    decreases n,
{
    if n == 0 {
        one(quoted(Seq::empty()))
    } else if names[n - 1]@ != rbatis_name && is_context_name(names[n - 1]@) {
        tokens(args[n - 1].ident)
    } else {
        context_arg(rbatis_name, names, args, (n - 1) as nat)
    }
}

/// `arg` is the parameter `name`: the identifier that is made from the name at
/// `span`, and a literal that stands for the text of that identifier. Both show
/// the name as it is where it is ASCII.
pub open spec fn arg_of(name: Seq<char>, arg: ArgTokens, span: Span) -> bool {
    let text = ident_text(name, span);
    let written = tokens(arg.label)[0].0;
    &&& tokens(arg.ident) == one(text)
    &&& tokens(arg.label) == one(written)
    &&& stands_for(written) == text
    &&& is_word(text) ==> written == quoted(text)
    &&& is_word(name) ==> text == name
}

/// `args` are the parameters `names`, all of them made at `span`.
pub open spec fn args_of(names: Seq<String>, args: Seq<ArgTokens>, span: Span) -> bool {
    &&& args.len() == names.len()
    &&& forall|i: int| 0 <= i < args.len() ==> arg_of(names[i]@, #[trigger] args[i], span)
}

/// Each of `names` is an identifier.
pub open spec fn all_idents(names: Seq<String>) -> bool {
    forall|i: int| 0 <= i < names.len() ==> is_ident((#[trigger] names[i])@)
}

/// The first of `names` that is no identifier is the one at `at`.
pub open spec fn first_invalid(names: Seq<String>, at: int) -> bool {
    &&& 0 <= at < names.len()
    &&& !is_ident(names[at]@)
    &&& forall|i: int| 0 <= i < at ==> is_ident((#[trigger] names[i])@)
}

/// `e` names the first of `names` that is no identifier.
pub open spec fn refuses_name(e: PySqlError, names: Seq<String>) -> bool {
    &&& e matches PySqlError::InvalidIdent(name)
    &&& exists|at: int| #[trigger] first_invalid(names, at) && name@ == names[at]@
}

/// Adds the code that collects one argument to `out`.
fn push_insert(out: &mut TokenStream, arg: &ArgTokens)
    ensures
        tokens(*final(out)) == tokens(*old(out)) + insert_tokens(
            tokens(arg.ident),
            tokens(arg.label),
        ),
{
    proof {
        reveal_strlit("rb_args");
        reveal_strlit("insert");
        reveal_strlit("to_string");
        reveal_strlit("serde_json");
        reveal_strlit("json");
    }
    let mut inner: TokenStream = no_tokens();
    append(&mut inner, &arg.label);
    push_mark(&mut inner, '.');
    push_word(&mut inner, "to_string");
    append(&mut inner, &in_parens(&no_tokens()));
    push_mark(&mut inner, ',');
    push_word(&mut inner, "serde_json");
    push_marks(&mut inner, ':', ':');
    push_word(&mut inner, "json");
    push_mark(&mut inner, '!');
    append(&mut inner, &in_parens(&arg.ident));

    let mut statement: TokenStream = no_tokens();
    push_word(&mut statement, "rb_args");
    push_mark(&mut statement, '.');
    push_word(&mut statement, "insert");
    append(&mut statement, &in_parens(&inner));
    push_mark(&mut statement, ';');
    assert(Texts::empty() + tokens(arg.label) =~= tokens(arg.label));
    assert(Texts::empty() + one("rb_args"@) =~= one("rb_args"@));
    append(out, &statement);
}

/// The code that collects the arguments, and the context to run in, from the
/// parameters as they appear in the code.
pub fn collect_args(rbatis_name: &str, names: &Vec<String>, args: &Vec<ArgTokens>) -> (r: (
    TokenStream,
    TokenStream,
))
    requires
        args@.len() == names@.len(),
    ensures
        tokens(r.0) == inserts(rbatis_name@, names@, args@, names@.len()),
        tokens(r.1) == context_arg(rbatis_name@, names@, args@, names@.len()),
{
    let rbatis_name: String = rbatis_name.to_owned();
    let mut sql_args_gen: TokenStream = no_tokens();
    let mut context_id_ident: TokenStream = literal("");
    proof {
        reveal_strlit("");
        assert(""@ =~= Seq::empty());
    }
    let mut i: usize = 0;
    while i < names.len()
        invariant
            i <= names@.len(),
            args@.len() == names@.len(),
            tokens(sql_args_gen) == inserts(rbatis_name@, names@, args@, i as nat),
            tokens(context_id_ident) == context_arg(
                rbatis_name@,
                names@,
                args@,
                i as nat,
            ),
        decreases names@.len() - i,
    {
        let item: &String = &names[i];
        if *item != rbatis_name {
            if *item == "ctx_id".to_owned() || *item == "context_id".to_owned() || *item
                == "tx_id".to_owned() {
                context_id_ident = no_tokens();
                append(&mut context_id_ident, &args[i].ident);
                assert(Texts::empty() + tokens(args@[i as int].ident)
                    =~= tokens(args@[i as int].ident));
            }
            push_insert(&mut sql_args_gen, &args[i]);
        }
        i = i + 1;
    }
    (sql_args_gen, context_id_ident)
}

/// The parameters `names` as they appear in the code, made at `span`.
fn arg_tokens(names: &Vec<String>, span: Span) -> (r: Result<Vec<ArgTokens>, PySqlError>)
    ensures
        match r {
            Ok(args) => args_of(names@, args@, span) && all_idents(names@),
            Err(e) => refuses_name(e, names@),
        },
{
    let mut args: Vec<ArgTokens> = Vec::new();
    let mut i: usize = 0;
    while i < names.len()
        invariant
            i <= names@.len(),
            args@.len() == i,
            forall|k: int| 0 <= k < i ==> arg_of(names@[k]@, #[trigger] args@[k], span),
            forall|k: int| 0 <= k < i ==> is_ident((#[trigger] names@[k])@),
        decreases names@.len() - i,
    {
        let item: &String = &names[i];
        if !can_be_ident(item) {
            assert(first_invalid(names@, i as int));
            return Err(PySqlError::InvalidIdent(item.clone()));
        }
        let item_ident: TokenStream = ident(item, span);
        let item_ident_name: String = print(&item_ident);
        let label: TokenStream = literal(&item_ident_name);
        args.push(ArgTokens { ident: item_ident, label });
        i = i + 1;
    }
    Ok(args)
}

/// The code that collects the arguments, and the context to run in, with all
/// identifiers made at `span`.
pub open spec fn collects_at(
    rbatis_name: Seq<char>,
    names: Seq<String>,
    span: Span,
    sql_args_gen: Texts,
    context_id_ident: Texts,
) -> bool {
    exists|args: Seq<ArgTokens>|
        {
            &&& #[trigger] args_of(names, args, span)
            &&& sql_args_gen == inserts(rbatis_name, names, args, names.len())
            &&& context_id_ident == context_arg(rbatis_name, names, args, names.len())
        }
}

/// What `filter_args_context_id` answers on success.
pub open spec fn collects(
    rbatis_name: Seq<char>,
    names: Seq<String>,
    sql_args_gen: Texts,
    context_id_ident: Texts,
) -> bool {
    exists|span: Span| #[trigger]
        collects_at(rbatis_name, names, span, sql_args_gen, context_id_ident)
}

/// The code that collects the arguments, and the context to run in. The ORM
/// itself, which is the parameter `rbatis_name`, is not collected.
pub fn filter_args_context_id(rbatis_name: &str, fn_arg_name_vec: &Vec<String>) -> (r: Result<
    (TokenStream, TokenStream),
    PySqlError,
>)
    ensures
        match r {
            Ok((sql_args_gen, context_id_ident)) => {
                &&& all_idents(fn_arg_name_vec@)
                &&& collects(
                    rbatis_name@,
                    fn_arg_name_vec@,
                    tokens(sql_args_gen),
                    tokens(context_id_ident),
                )
            },
            Err(e) => refuses_name(e, fn_arg_name_vec@),
        },
{
    let span: Span = call_site();
    match arg_tokens(fn_arg_name_vec, span) {
        Ok(args) => {
            let r: (TokenStream, TokenStream) = collect_args(rbatis_name, fn_arg_name_vec, &args);
            assert(args_of(fn_arg_name_vec@, args@, span));
            assert(collects_at(rbatis_name@, fn_arg_name_vec@, span, tokens(r.0), tokens(r.1)));
            Ok(r)
        },
        Err(e) => Err(e),
    }
}

/// The statement without the white space around it.
pub fn sql_text(sql: &TokenStream) -> (r: String)
    ensures
        r@ == crate::text::trimmed(printed(*sql)),
{
    trim(&print(sql))
}

/// A function whose return type and parameters print like this asks for a page
/// and returns one.
pub open spec fn reads_as_paged(return_ty: Seq<char>, inputs: Seq<char>) -> bool {
    crate::text::occurs(return_ty, "Page <"@) && crate::text::occurs(inputs, "& PageRequest"@)
}

/// The function asks for a page and returns one.
pub open spec fn pages(return_ty: TokenStream, inputs: TokenStream) -> bool {
    reads_as_paged(printed(return_ty), printed(inputs))
}

/// Whether a function whose return type and parameters print like this asks for
/// a page and returns one.
pub fn is_paged(return_ty: &str, inputs: &str) -> (r: bool)
    ensures
        r == reads_as_paged(return_ty@, inputs@),
{
    contains(return_ty, "Page <") && contains(inputs, "& PageRequest")
}

/// Whether the function asks for a page and returns one.
pub fn uses_page(return_ty: &TokenStream, inputs: &TokenStream) -> (r: bool)
    ensures
        r == pages(*return_ty, *inputs),
{
    is_paged(&print(return_ty), &print(inputs))
}

/// The message for a function that is not async.
pub open spec fn not_async_text(name: Seq<char>, inputs: Seq<char>) -> Seq<char> {
    "[rbaits] 'fn "@ + name + "("@ + inputs + ")' must be  async fn! "@
}

/// Says that the function is not async.
pub fn not_async_message(name: &str, inputs: &str) -> (r: String)
    ensures
        r@ == not_async_text(name@, inputs@),
{
    let mut message: String = joined("[rbaits] 'fn ", name, "(");
    message.append(inputs);
    message.append(")' must be  async fn! ");
    message
}

/// `let mut rb_args = serde_json::Map::new();`
pub open spec fn open_tokens() -> Texts {
    one("let"@) + one("mut"@) + one("rb_args"@) + mark('=') + one("serde_json"@) + joint(':')
        + mark(':') + one("Map"@) + joint(':') + mark(':') + one("new"@) + parens(Texts::empty())
        + mark(';')
}

/// `let mut rb_args = serde_json::Value::from(rb_args);`
pub open spec fn close_tokens() -> Texts {
    one("let"@) + one("mut"@) + one("rb_args"@) + mark('=') + one("serde_json"@) + joint(':')
        + mark(':') + one("Value"@) + joint(':') + mark(':') + one("from"@) + parens(one("rb_args"@))
        + mark(';')
}

/// `return <rbatis>.<method>(<context>, &<sql>, &rb_args <page>).await;`
pub open spec fn call_tokens(
    rbatis: Texts,
    method: Seq<char>,
    context: Texts,
    sql: Texts,
    page: Texts,
) -> Texts {
    one("return"@) + rbatis + mark('.') + one(method) + parens(
        context + mark(',') + mark('&') + sql + mark(',') + mark('&') + one("rb_args"@) + page,
    ) + mark('.') + one("await"@) + mark(';')
}

/// The method of the ORM that runs the statement.
pub open spec fn method_text(is_fetch: bool, paged: bool) -> Seq<char> {
    if paged {
        "py_fetch_page"@
    } else if is_fetch {
        "py_fetch"@
    } else {
        "py_exec"@
    }
}

/// The function that takes the place of `target_fn`.
pub open spec fn fn_tokens(
    target_fn: PyFn,
    sql_args_gen: Texts,
    call: Texts,
) -> Texts {
    one("pub"@) + one("async"@) + one("fn"@) + tokens(target_fn.name) + parens(
        tokens(target_fn.inputs),
    ) + joint('-') + mark('>') + tokens(target_fn.return_ty) + braces(
        open_tokens() + sql_args_gen + close_tokens() + tokens(target_fn.body) + call,
    )
}

/// The code for `target_fn`, from the code that collects its arguments and the
/// context to run in.
pub open spec fn generated(
    target_fn: PyFn,
    args: Seq<TokenStream>,
    is_fetch: bool,
    page_req: TokenStream,
    sql_args_gen: Texts,
    context_id_ident: Texts,
) -> Texts {
    let paged = pages(target_fn.return_ty, target_fn.inputs);
    fn_tokens(
        target_fn,
        sql_args_gen,
        call_tokens(
            tokens(args[0]),
            method_text(is_fetch, paged),
            context_id_ident,
            tokens(args[1]),
            if paged {
                mark(',') + tokens(page_req)
            } else {
                Texts::empty()
            },
        ),
    )
}

/// Adds `let mut rb_args = serde_json::Map::new();` to `out`.
fn push_open(out: &mut TokenStream)
    ensures
        tokens(*final(out)) == tokens(*old(out)) + open_tokens(),
{
    proof {
        reveal_strlit("let");
        reveal_strlit("mut");
        reveal_strlit("rb_args");
        reveal_strlit("serde_json");
        reveal_strlit("Map");
        reveal_strlit("new");
    }
    let mut statement: TokenStream = no_tokens();
    push_word(&mut statement, "let");
    push_word(&mut statement, "mut");
    push_word(&mut statement, "rb_args");
    push_mark(&mut statement, '=');
    push_word(&mut statement, "serde_json");
    push_marks(&mut statement, ':', ':');
    push_word(&mut statement, "Map");
    push_marks(&mut statement, ':', ':');
    push_word(&mut statement, "new");
    append(&mut statement, &in_parens(&no_tokens()));
    push_mark(&mut statement, ';');
    assert(Texts::empty() + one("let"@) =~= one("let"@));
    append(out, &statement);
}

/// Adds `let mut rb_args = serde_json::Value::from(rb_args);` to `out`.
fn push_close(out: &mut TokenStream)
    ensures
        tokens(*final(out)) == tokens(*old(out)) + close_tokens(),
{
    proof {
        reveal_strlit("let");
        reveal_strlit("mut");
        reveal_strlit("rb_args");
        reveal_strlit("serde_json");
        reveal_strlit("Value");
        reveal_strlit("from");
    }
    let mut argument: TokenStream = no_tokens();
    push_word(&mut argument, "rb_args");
    assert(Texts::empty() + one("rb_args"@) =~= one("rb_args"@));
    let mut statement: TokenStream = no_tokens();
    push_word(&mut statement, "let");
    push_word(&mut statement, "mut");
    push_word(&mut statement, "rb_args");
    push_mark(&mut statement, '=');
    push_word(&mut statement, "serde_json");
    push_marks(&mut statement, ':', ':');
    push_word(&mut statement, "Value");
    push_marks(&mut statement, ':', ':');
    push_word(&mut statement, "from");
    append(&mut statement, &in_parens(&argument));
    push_mark(&mut statement, ';');
    assert(Texts::empty() + one("let"@) =~= one("let"@));
    append(out, &statement);
}

/// The statement that runs the SQL and returns what comes back.
fn call_statement(
    rbatis_ident: &TokenStream,
    call_method: &str,
    context_id_ident: &TokenStream,
    sql_ident: &TokenStream,
    page_req: &TokenStream,
) -> (r: TokenStream)
    requires
        call_method@.len() > 0,
        crate::tokens::is_word_start(call_method@[0]),
        is_word(call_method@),
    ensures
        tokens(r) == call_tokens(
            tokens(*rbatis_ident),
            call_method@,
            tokens(*context_id_ident),
            tokens(*sql_ident),
            tokens(*page_req),
        ),
{
    proof {
        reveal_strlit("return");
        reveal_strlit("rb_args");
        reveal_strlit("await");
    }
    let mut inner: TokenStream = no_tokens();
    append(&mut inner, context_id_ident);
    push_mark(&mut inner, ',');
    push_mark(&mut inner, '&');
    append(&mut inner, sql_ident);
    push_mark(&mut inner, ',');
    push_mark(&mut inner, '&');
    push_word(&mut inner, "rb_args");
    append(&mut inner, page_req);
    assert(Texts::empty() + tokens(*context_id_ident) =~= tokens(*context_id_ident));

    let mut statement: TokenStream = no_tokens();
    push_word(&mut statement, "return");
    append(&mut statement, rbatis_ident);
    push_mark(&mut statement, '.');
    push_word(&mut statement, call_method);
    append(&mut statement, &in_parens(&inner));
    push_mark(&mut statement, '.');
    push_word(&mut statement, "await");
    push_mark(&mut statement, ';');
    assert(Texts::empty() + one("return"@) =~= one("return"@));
    statement
}

/// The function that takes the place of `target_fn`, around what collects the
/// arguments and what runs the statement.
fn whole_fn(target_fn: &PyFn, sql_args_gen: &TokenStream, call: &TokenStream) -> (r: TokenStream)
    ensures
        tokens(r) == fn_tokens(*target_fn, tokens(*sql_args_gen), tokens(*call)),
{
    proof {
        reveal_strlit("pub");
        reveal_strlit("async");
        reveal_strlit("fn");
    }
    let mut body: TokenStream = no_tokens();
    push_open(&mut body);
    assert(Texts::empty() + open_tokens() =~= open_tokens());
    append(&mut body, sql_args_gen);
    push_close(&mut body);
    append(&mut body, &target_fn.body);
    append(&mut body, call);

    let mut code: TokenStream = no_tokens();
    push_word(&mut code, "pub");
    assert(Texts::empty() + one("pub"@) =~= one("pub"@));
    push_word(&mut code, "async");
    push_word(&mut code, "fn");
    append(&mut code, &target_fn.name);
    append(&mut code, &in_parens(&target_fn.inputs));
    push_marks(&mut code, '-', '>');
    append(&mut code, &target_fn.return_ty);
    append(&mut code, &in_braces(&body));
    code
}

/// What `impl_macro_py_sql` answers. It looks at the number of `args` first, then
/// at whether the function is async, then at the names of its parameters.
pub open spec fn replaces(
    target_fn: PyFn,
    args: Seq<TokenStream>,
    is_fetch: bool,
    page_req: TokenStream,
    r: Result<TokenStream, PySqlError>,
) -> bool {
    match r {
        Err(PySqlError::MissingArgument) => args.len() < 2,
        Err(PySqlError::NotAsync(message)) => {
            &&& args.len() >= 2
            &&& !target_fn.is_async
            &&& message@ == not_async_text(printed(target_fn.name), printed(target_fn.inputs))
        },
        Err(PySqlError::InvalidIdent(name)) => {
            &&& args.len() >= 2
            &&& target_fn.is_async
            &&& refuses_name(PySqlError::InvalidIdent(name), target_fn.arg_names@)
        },
        Ok(code) => {
            &&& args.len() >= 2
            &&& target_fn.is_async
            &&& all_idents(target_fn.arg_names@)
            &&& exists|sql_args_gen: Texts, context_id_ident: Texts|
                {
                    &&& #[trigger] collects(
                        printed(args[0]),
                        target_fn.arg_names@,
                        sql_args_gen,
                        context_id_ident,
                    )
                    &&& tokens(code) == generated(
                        target_fn,
                        args,
                        is_fetch,
                        page_req,
                        sql_args_gen,
                        context_id_ident,
                    )
                }
        },
    }
}

/// The code that takes the place of `target_fn`, which is annotated with
/// `args`: the ORM, and the statement to run. `is_fetch` says whether the
/// statement fetches (`sql_text` is what to judge by), and `page_req` is the
/// page that is asked for, which is looked at only where `uses_page`.
pub fn impl_macro_py_sql(
    target_fn: &PyFn,
    args: &Vec<TokenStream>,
    is_fetch: bool,
    page_req: &TokenStream,
) -> (r: Result<TokenStream, PySqlError>)
    ensures
        replaces(*target_fn, args@, is_fetch, *page_req, r),
{
    if args.len() < 2 {
        return Err(PySqlError::MissingArgument);
    }
    if !target_fn.is_async {
        return Err(
            PySqlError::NotAsync(
                not_async_message(&print(&target_fn.name), &print(&target_fn.inputs)),
            ),
        );
    }
    let rbatis_name: String = print(&args[0]);
    match filter_args_context_id(&rbatis_name, &target_fn.arg_names) {
        Err(e) => Err(e),
        Ok((sql_args_gen, context_id_ident)) => Ok(
            py_fn_code(target_fn, args, is_fetch, page_req, &sql_args_gen, &context_id_ident),
        ),
    }
}

/// The code that takes the place of `target_fn`, from the code that collects its
/// arguments and the context to run in.
pub fn py_fn_code(
    target_fn: &PyFn,
    args: &Vec<TokenStream>,
    is_fetch: bool,
    page_req: &TokenStream,
    sql_args_gen: &TokenStream,
    context_id_ident: &TokenStream,
) -> (r: TokenStream)
    requires
        args@.len() >= 2,
    ensures
        tokens(r) == generated(
            *target_fn,
            args@,
            is_fetch,
            *page_req,
            tokens(*sql_args_gen),
            tokens(*context_id_ident),
        ),
{
    proof {
        reveal_strlit("py_fetch");
        reveal_strlit("py_exec");
        reveal_strlit("py_fetch_page");
    }
    let mut page: TokenStream = no_tokens();
    let mut call_method: &str = if is_fetch {
        "py_fetch"
    } else {
        "py_exec"
    };
    if uses_page(&target_fn.return_ty, &target_fn.inputs) {
        push_mark(&mut page, ',');
        assert(Texts::empty() + mark(',') =~= mark(','));
        append(&mut page, page_req);
        call_method = "py_fetch_page";
    }
    let call: TokenStream = call_statement(
        &args[0],
        call_method,
        context_id_ident,
        &args[1],
        &page,
    );
    whole_fn(target_fn, sql_args_gen, &call)
}

} // verus!
