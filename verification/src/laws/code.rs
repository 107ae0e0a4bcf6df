//! What code there is for an annotated function, token by token.

use proc_macro2::{Span, TokenStream};
use vstd::prelude::*;

use crate::laws::statements::is_padded;
use crate::laws::texts::{is_part, lemma_is_part, lemma_trimmed_is};
use crate::laws::{
    kept, law_arguments_are_collected_in_order, law_last_context_wins, law_no_context,
};
use crate::py_sql::{
    collect_args, collects, collects_at, filter_args_context_id, first_invalid, generated,
    impl_macro_py_sql, insert_tokens, is_paged, not_async_message, py_fn_code, sql_text, uses_page,
    ArgTokens, PyFn, PySqlError,
};
use crate::tokens::{
    can_be_ident, ident_text, is_word, printed, stands_for, tokens, xid_continue, xid_start, Texts,
};

verus! {

/// The identifier, keyword or literal `text`.
pub open spec fn word(text: Seq<char>) -> Texts {
    seq![(text, false)]
}

/// The character `c`, by itself.
pub open spec fn sign(c: char) -> Texts {
    seq![(seq![c], false)]
}

/// The operator of the two characters `a` and `b`.
pub open spec fn signs(a: char, b: char) -> Texts {
    seq![(seq![a], true), (seq![b], false)]
}

/// Tokens one after another.
pub open spec fn row(parts: Seq<Texts>) -> Texts
    decreases parts.len(),
{
    if parts.len() == 0 {
        Seq::empty()
    } else {
        row(parts.drop_last()) + parts.last()
    }
}

/// `rb_args.insert(<label>.to_string(), serde_json::json!(<ident>));`
pub open spec fn insert_code(ident: Texts, label: Texts) -> Texts {
    row(
        seq![
            word("rb_args"@),
            sign('.'),
            word("insert"@),
            sign('('),
            label,
            sign('.'),
            word("to_string"@),
            sign('('),
            sign(')'),
            sign(','),
            word("serde_json"@),
            signs(':', ':'),
            word("json"@),
            sign('!'),
            sign('('),
            ident,
            sign(')'),
            sign(')'),
            sign(';'),
        ],
    )
}

/// `let mut rb_args = serde_json::Map::new();`
pub open spec fn map_code() -> Texts {
    row(
        seq![
            word("let"@),
            word("mut"@),
            word("rb_args"@),
            sign('='),
            word("serde_json"@),
            signs(':', ':'),
            word("Map"@),
            signs(':', ':'),
            word("new"@),
            sign('('),
            sign(')'),
            sign(';'),
        ],
    )
}

/// `let mut rb_args = serde_json::Value::from(rb_args);`
pub open spec fn value_code() -> Texts {
    row(
        seq![
            word("let"@),
            word("mut"@),
            word("rb_args"@),
            sign('='),
            word("serde_json"@),
            signs(':', ':'),
            word("Value"@),
            signs(':', ':'),
            word("from"@),
            sign('('),
            word("rb_args"@),
            sign(')'),
            sign(';'),
        ],
    )
}

/// `return <rbatis>.<method>(<context>, &<sql>, &rb_args <page>).await;`
pub open spec fn return_code(
    rbatis: Texts,
    method: Texts,
    context: Texts,
    sql: Texts,
    page: Texts,
) -> Texts {
    row(
        seq![
            word("return"@),
            rbatis,
            sign('.'),
            method,
            sign('('),
            context,
            sign(','),
            sign('&'),
            sql,
            sign(','),
            sign('&'),
            word("rb_args"@),
            page,
            sign(')'),
            sign('.'),
            word("await"@),
            sign(';'),
        ],
    )
}

/// `pub async fn <name>(<inputs>) -> <return_ty>`
pub open spec fn head_code(target_fn: PyFn) -> Texts {
    row(
        seq![
            word("pub"@),
            word("async"@),
            word("fn"@),
            tokens(target_fn.name),
            sign('('),
            tokens(target_fn.inputs),
            sign(')'),
            signs('-', '>'),
            tokens(target_fn.return_ty),
        ],
    )
}

/// The function with this call at its end: it makes the map, collects the arguments,
/// does what stood in its body and calls.
pub open spec fn fn_code(target_fn: PyFn, collecting: Texts, call: Texts) -> Texts {
    row(
        seq![
            head_code(target_fn),
            sign('{'),
            map_code(),
            collecting,
            value_code(),
            tokens(target_fn.body),
            call,
            sign('}'),
        ],
    )
}

/// The function returns a page and takes a request for one.
pub open spec fn asks_for_a_page(target_fn: PyFn) -> bool {
    is_part(printed(target_fn.return_ty), "Page <"@) && is_part(
        printed(target_fn.inputs),
        "& PageRequest"@,
    )
}

/// Whether a function pages is told by what its return type and its parameters hold
/// as they print.
pub proof fn law_paging(
    return_ty: &TokenStream,
    inputs: &TokenStream,
    uses: bool,
    return_text: &str,
    inputs_text: &str,
    reads: bool,
)
    requires
        call_ensures(uses_page, (return_ty, inputs), uses),
        call_ensures(is_paged, (return_text, inputs_text), reads),
    ensures
        uses <==> is_part(printed(*return_ty), "Page <"@) && is_part(
            printed(*inputs),
            "& PageRequest"@,
        ),
        reads <==> is_part(return_text@, "Page <"@) && is_part(inputs_text@, "& PageRequest"@),
{
    lemma_is_part(printed(*return_ty), "Page <"@);
    lemma_is_part(printed(*inputs), "& PageRequest"@);
    lemma_is_part(return_text@, "Page <"@);
    lemma_is_part(inputs_text@, "& PageRequest"@);
}

/// A statement is judged by its text without the white space around it.
pub proof fn law_statement_text(
    sql: &TokenStream,
    r: String,
    before: Seq<char>,
    core: Seq<char>,
    after: Seq<char>,
)
    requires
        call_ensures(sql_text, (sql,), r),
        is_padded(printed(*sql), before, core, after),
    ensures
        r@ == core,
{
    lemma_trimmed_is(before, core, after);
}

/// The message for a function that is not async shows its name and its parameters.
pub proof fn law_not_async_message(name: &str, inputs: &str, r: String)
    requires
        call_ensures(not_async_message, (name, inputs), r),
    ensures
        r@ == "[rbaits] 'fn "@ + name@ + "("@ + inputs@ + ")' must be  async fn! "@,
{
}

/// An identifier begins with a letter or an underscore and goes on with letters, digits
/// and underscores; outside ASCII the properties of Unicode decide.
pub proof fn law_identifiers(text: &str, r: bool)
    requires
        call_ensures(can_be_ident, (text,), r),
    ensures
        r <==> text@.len() > 0 && !('0' <= text@[0] <= '9') && (text@[0] > '\u{7f}' ==> xid_start(
            text@[0],
        )) && forall|i: int|
            0 <= i < text@.len() ==> {
                let c = #[trigger] text@[i];
                ||| 'a' <= c <= 'z'
                ||| 'A' <= c <= 'Z'
                ||| '0' <= c <= '9'
                ||| c == '_'
                ||| c > '\u{7f}' && (i == 0 || xid_continue(c))
            },
{
}

/// Whatever the function, its parameters, its body and what it returns: the code ends
/// with the call of the one method that belongs to the statement. A function that
/// pages calls `py_fetch_page` with the page behind the arguments; any other calls
/// `py_fetch` where the statement fetches and `py_exec` where it does not, with
/// nothing behind them.
pub proof fn law_called_method(
    target_fn: &PyFn,
    args: &Vec<TokenStream>,
    is_fetch: bool,
    page_req: &TokenStream,
    collecting: &TokenStream,
    context: &TokenStream,
    r: TokenStream,
)
    requires
        args@.len() >= 2,
        call_ensures(
            py_fn_code,
            (target_fn, args, is_fetch, page_req, collecting, context),
            r,
        ),
    ensures
        asks_for_a_page(*target_fn) ==> tokens(r) == fn_code(
            *target_fn,
            tokens(*collecting),
            return_code(
                tokens(args@[0]),
                word("py_fetch_page"@),
                tokens(*context),
                tokens(args@[1]),
                sign(',') + tokens(*page_req),
            ),
        ),
        !asks_for_a_page(*target_fn) && is_fetch ==> tokens(r) == fn_code(
            *target_fn,
            tokens(*collecting),
            return_code(
                tokens(args@[0]),
                word("py_fetch"@),
                tokens(*context),
                tokens(args@[1]),
                Seq::empty(),
            ),
        ),
        !asks_for_a_page(*target_fn) && !is_fetch ==> tokens(r) == fn_code(
            *target_fn,
            tokens(*collecting),
            return_code(
                tokens(args@[0]),
                word("py_exec"@),
                tokens(*context),
                tokens(args@[1]),
                Seq::empty(),
            ),
        ),
{
    lemma_generated(
        *target_fn,
        args@,
        is_fetch,
        *page_req,
        tokens(*collecting),
        tokens(*context),
    );
}

/// The method that is called, and what it is called with behind the arguments.
pub open spec fn called(target_fn: PyFn, is_fetch: bool, page_req: TokenStream) -> (Texts, Texts) {
    if asks_for_a_page(target_fn) {
        (word("py_fetch_page"@), sign(',') + tokens(page_req))
    } else if is_fetch {
        (word("py_fetch"@), Seq::empty())
    } else {
        (word("py_exec"@), Seq::empty())
    }
}

proof fn lemma_generated(
    target_fn: PyFn,
    args: Seq<TokenStream>,
    is_fetch: bool,
    page_req: TokenStream,
    collecting: Texts,
    context: Texts,
)
    requires
        args.len() >= 2,
    ensures
        generated(target_fn, args, is_fetch, page_req, collecting, context) == fn_code(
            target_fn,
            collecting,
            return_code(
                tokens(args[0]),
                called(target_fn, is_fetch, page_req).0,
                context,
                tokens(args[1]),
                called(target_fn, is_fetch, page_req).1,
            ),
        ),
{
    lemma_is_part(printed(target_fn.return_ty), "Page <"@);
    lemma_is_part(printed(target_fn.inputs), "& PageRequest"@);
    let (method, page) = called(target_fn, is_fetch, page_req);
    let paged = asks_for_a_page(target_fn);
    lemma_call(
        tokens(args[0]),
        crate::py_sql::method_text(is_fetch, paged),
        context,
        tokens(args[1]),
        page,
    );
    lemma_fn(
        target_fn,
        collecting,
        return_code(tokens(args[0]), method, context, tokens(args[1]), page),
    );
}

proof fn lemma_call(rbatis: Texts, method: Seq<char>, context: Texts, sql: Texts, page: Texts)
    ensures
        crate::py_sql::call_tokens(rbatis, method, context, sql, page) == return_code(
            rbatis,
            word(method),
            context,
            sql,
            page,
        ),
{
    reveal_with_fuel(row, 18);
    assert(crate::py_sql::call_tokens(rbatis, method, context, sql, page) =~= return_code(
        rbatis,
        word(method),
        context,
        sql,
        page,
    ));
}

proof fn lemma_fn(target_fn: PyFn, collecting: Texts, call: Texts)
    ensures
        crate::py_sql::fn_tokens(target_fn, collecting, call) == fn_code(
            target_fn,
            collecting,
            call,
        ),
{
    lemma_open_and_close();
    assert(crate::py_sql::fn_tokens(target_fn, collecting, call) =~= fn_code(
        target_fn,
        collecting,
        call,
    )) by {
        reveal_with_fuel(row, 10);
    }
}

proof fn lemma_open_and_close()
    ensures
        crate::py_sql::open_tokens() == map_code(),
        crate::py_sql::close_tokens() == value_code(),
{
    reveal_with_fuel(row, 14);
    assert(crate::py_sql::open_tokens() =~= map_code());
    assert(crate::py_sql::close_tokens() =~= value_code());
}

proof fn lemma_insert(ident: Texts, label: Texts)
    ensures
        insert_tokens(ident, label) == insert_code(ident, label),
{
    reveal_with_fuel(row, 20);
    assert(insert_tokens(ident, label) =~= insert_code(ident, label));
}

/// The id of a context goes by one of these names.
pub open spec fn names_a_context(name: Seq<char>) -> bool {
    name == "tx_id"@ || name == "ctx_id"@ || name == "context_id"@
}

/// Without parameters there is nothing to collect and no context. One parameter more
/// is collected behind the others, in one statement, and is the context from then on
/// if it goes by such a name; but the ORM itself is neither.
pub proof fn law_one_parameter_more(
    rbatis_name: &str,
    names: &Vec<String>,
    args: &Vec<ArgTokens>,
    more_names: &Vec<String>,
    more_args: &Vec<ArgTokens>,
    r: (TokenStream, TokenStream),
    more_r: (TokenStream, TokenStream),
    name: String,
    arg: ArgTokens,
)
    requires
        args@.len() == names@.len(),
        more_names@ == names@.push(name),
        more_args@ == args@.push(arg),
        call_ensures(collect_args, (rbatis_name, names, args), r),
        call_ensures(collect_args, (rbatis_name, more_names, more_args), more_r),
    ensures
        names@.len() == 0 ==> tokens(r.0).len() == 0 && tokens(r.1) == word(seq!['"', '"']),
        name@ == rbatis_name@ ==> tokens(more_r.0) == tokens(r.0) && tokens(more_r.1) == tokens(
            r.1,
        ),
        name@ != rbatis_name@ ==> tokens(more_r.0) == tokens(r.0) + insert_code(
            tokens(arg.ident),
            tokens(arg.label),
        ),
        name@ != rbatis_name@ && names_a_context(name@) ==> tokens(more_r.1) == tokens(arg.ident),
        name@ != rbatis_name@ && !names_a_context(name@) ==> tokens(more_r.1) == tokens(r.1),
{
    let n = names@.len();
    assert(crate::laws::agree(names@, args@, more_names@, more_args@, n as int));
    crate::laws::lemma_agree(rbatis_name@, names@, args@, more_names@, more_args@, n);
    assert(more_names@[n as int] == name);
    assert(more_args@[n as int] == arg);
    lemma_insert(tokens(arg.ident), tokens(arg.label));
    lemma_empty_literal();
}

proof fn lemma_empty_literal()
    ensures
        crate::tokens::one(crate::tokens::quoted(Seq::empty())) == word(seq!['"', '"']),
{
    assert(crate::tokens::quoted(Seq::empty()) =~= seq!['"', '"']);
}

/// `labels` are literals that stand for the identifiers that are made from `names` at
/// `span`. A name of ASCII is its own identifier, and its literal is the name between
/// double quotes.
pub open spec fn are_labels(names: Seq<String>, span: Span, labels: Seq<Seq<char>>) -> bool {
    &&& labels.len() == names.len()
    &&& forall|i: int|
        0 <= i < names.len() ==> stands_for(#[trigger] labels[i]) == ident_text(names[i]@, span)
    &&& forall|i: int|
        0 <= i < names.len() && is_word(names[i]@) ==> #[trigger] labels[i] == seq!['"'] + names[i]@
            + seq!['"']
    &&& forall|i: int|
        0 <= i < names.len() && is_word(names[i]@) ==> ident_text((#[trigger] names[i])@, span)
            == names[i]@
}

/// `code` collects each parameter but the ORM under its own name, in order, and
/// `context` is the last that goes by the name of a context, or the empty text.
pub open spec fn is_collected(
    rbatis_name: Seq<char>,
    names: Seq<String>,
    span: Span,
    labels: Seq<Seq<char>>,
    code: Texts,
    context: Texts,
) -> bool {
    &&& are_labels(names, span, labels)
    &&& code == kept(rbatis_name, names, names.len()).map_values(
        |i: int| insert_code(word(ident_text(names[i]@, span)), word(labels[i])),
    ).flatten()
    &&& forall|k: int|
        0 <= k < names.len() && is_last_context(rbatis_name, names, k) ==> context == word(
            (#[trigger] names[k])@,
        )
    &&& (forall|k: int|
        0 <= k < names.len() ==> (#[trigger] names[k])@ == rbatis_name || !names_a_context(
            names[k]@,
        )) ==> context == word(seq!['"', '"'])
}

/// The parameter at `k` goes by the name of a context, and none behind it does; the
/// ORM does not count.
pub open spec fn is_last_context(rbatis_name: Seq<char>, names: Seq<String>, k: int) -> bool {
    &&& names[k]@ != rbatis_name
    &&& names_a_context(names[k]@)
    &&& forall|i: int|
        k < i < names.len() ==> (#[trigger] names[i])@ == rbatis_name || !names_a_context(names[i]@)
}

proof fn lemma_collected(
    rbatis_name: Seq<char>,
    names: Seq<String>,
    span: Span,
    code: Texts,
    context: Texts,
)
    requires
        collects_at(rbatis_name, names, span, code, context),
    ensures
        exists|labels: Seq<Seq<char>>| #[trigger]
            is_collected(rbatis_name, names, span, labels, code, context),
{
    let args = crate::laws::args_behind(rbatis_name, names, span, code, context);
    let labels = Seq::new(names.len(), |i: int| tokens(args[i].label)[0].0);
    assert forall|i: int| 0 <= i < names.len() implies {
        &&& tokens(args[i].ident) == word(ident_text(names[i]@, span))
        &&& tokens(args[i].label) == word(#[trigger] labels[i])
        &&& stands_for(labels[i]) == ident_text(names[i]@, span)
        &&& is_word(names[i]@) ==> labels[i] == seq!['"'] + names[i]@ + seq!['"']
    } by {
        assert(crate::py_sql::arg_of(names[i]@, args[i], span));
    }
    law_arguments_are_collected_in_order(rbatis_name, names, args, names.len());
    let positions = kept(rbatis_name, names, names.len());
    let made = |i: int| insert_tokens(tokens(args[i].ident), tokens(args[i].label));
    let spelled = |i: int| insert_code(word(ident_text(names[i]@, span)), word(labels[i]));
    assert(positions.map_values(made) =~= positions.map_values(spelled)) by {
        assert forall|j: int| 0 <= j < positions.len() implies #[trigger] positions.map_values(
            made,
        )[j] == positions.map_values(spelled)[j] by {
            lemma_kept_in_range(rbatis_name, names, names.len(), j);
            let i = positions[j];
            assert(tokens(args[i].label) == word(labels[i]));
            lemma_insert(tokens(args[i].ident), tokens(args[i].label));
        }
    }
    assert forall|k: int|
        0 <= k < names.len() && is_last_context(rbatis_name, names, k) implies context == word(
        (#[trigger] names[k])@,
    ) by {
        assert(tokens(args[k].label) == word(labels[k]));
        law_last_context_wins(rbatis_name, names, args, k, names.len());
        crate::laws::lemma_context_name(names[k]@);
    }
    if forall|k: int|
        0 <= k < names.len() ==> (#[trigger] names[k])@ == rbatis_name || !names_a_context(
            names[k]@,
        ) {
        law_no_context(rbatis_name, names, args, names.len());
        lemma_empty_literal();
    }
    assert(code == positions.map_values(made).flatten());
    assert(code == positions.map_values(spelled).flatten());
    assert forall|i: int| 0 <= i < names.len() && is_word(names[i]@) implies ident_text(
        (#[trigger] names[i])@,
        span,
    ) == names[i]@ by {
        assert(crate::py_sql::arg_of(names[i]@, args[i], span));
    }
    assert(are_labels(names, span, labels));
    assert(is_collected(rbatis_name, names, span, labels, code, context));
}

proof fn lemma_kept_in_range(rbatis_name: Seq<char>, names: Seq<String>, n: nat, j: int)
    requires
        0 <= j < kept(rbatis_name, names, n).len(),
    ensures
        0 <= kept(rbatis_name, names, n)[j] < n,
    decreases n,
{
    reveal(Seq::filter);
    if n > 0 {
        let before = kept(rbatis_name, names, (n - 1) as nat);
        assert(Seq::new(n, |i: int| i).drop_last() =~= Seq::new((n - 1) as nat, |i: int| i));
        if j < before.len() {
            lemma_kept_in_range(rbatis_name, names, (n - 1) as nat, j);
        }
    }
}

/// A name that is no identifier is refused, the first of them, and otherwise each
/// parameter but the ORM is collected under its own name.
pub proof fn law_parameters_are_collected(
    rbatis_name: &str,
    names: &Vec<String>,
    r: Result<(TokenStream, TokenStream), PySqlError>,
)
    requires
        call_ensures(filter_args_context_id, (rbatis_name, names), r),
    ensures
        match r {
            Ok((code, context)) => {
                &&& forall|i: int|
                    0 <= i < names@.len() ==> crate::tokens::is_ident((#[trigger] names@[i])@)
                &&& exists|span: Span, labels: Seq<Seq<char>>| #[trigger]
                    is_collected(
                        rbatis_name@,
                        names@,
                        span,
                        labels,
                        tokens(code),
                        tokens(context),
                    )
            },
            Err(PySqlError::InvalidIdent(name)) => is_first_invalid(names@, name@),
            Err(_) => false,
        },
{
    if let Ok((code, context)) = r {
        let span = choose|span: Span| #[trigger]
            collects_at(rbatis_name@, names@, span, tokens(code), tokens(context));
        lemma_collected(rbatis_name@, names@, span, tokens(code), tokens(context));
    }
}

/// `name` is the first of `names` that is no identifier.
pub open spec fn is_first_invalid(names: Seq<String>, name: Seq<char>) -> bool {
    exists|at: int|
        #![trigger names[at]]
        0 <= at < names.len() && names[at]@ == name && !crate::tokens::is_ident(name) && forall|
            i: int,
        |
            0 <= i < at ==> crate::tokens::is_ident((#[trigger] names[i])@)
}

/// The macro needs the ORM and the statement, an async function and identifiers for
/// its parameters, and refuses in this order. Otherwise the code collects each
/// parameter but the ORM under its own name and ends with the call that belongs to the
/// statement.
pub proof fn law_macro(
    target_fn: &PyFn,
    args: &Vec<TokenStream>,
    is_fetch: bool,
    page_req: &TokenStream,
    r: Result<TokenStream, PySqlError>,
)
    requires
        call_ensures(impl_macro_py_sql, (target_fn, args, is_fetch, page_req), r),
    ensures
        r matches Err(PySqlError::MissingArgument) <==> args@.len() < 2,
        r matches Err(PySqlError::NotAsync(_)) <==> args@.len() >= 2 && !target_fn.is_async,
        r matches Err(PySqlError::NotAsync(message)) ==> message@ == "[rbaits] 'fn "@ + printed(
            target_fn.name,
        ) + "("@ + printed(target_fn.inputs) + ")' must be  async fn! "@,
        r matches Err(PySqlError::InvalidIdent(name)) ==> is_first_invalid(
            target_fn.arg_names@,
            name@,
        ),
        r matches Err(PySqlError::InvalidIdent(_)) <==> args@.len() >= 2 && target_fn.is_async
            && exists|i: int|
            0 <= i < target_fn.arg_names@.len() && !crate::tokens::is_ident(
                (#[trigger] target_fn.arg_names@[i])@,
            ),
        r matches Ok(code) ==> exists|
            span: Span,
            labels: Seq<Seq<char>>,
            collecting: Texts,
            context: Texts,
        |
            {
                &&& #[trigger] is_collected(
                    printed(args@[0]),
                    target_fn.arg_names@,
                    span,
                    labels,
                    collecting,
                    context,
                )
                &&& tokens(code) == fn_code(
                    *target_fn,
                    collecting,
                    return_code(
                        tokens(args@[0]),
                        called(*target_fn, is_fetch, *page_req).0,
                        context,
                        tokens(args@[1]),
                        called(*target_fn, is_fetch, *page_req).1,
                    ),
                )
            },
{
    let names = target_fn.arg_names@;
    if let Err(PySqlError::InvalidIdent(name)) = r {
        let at = choose|at: int| #[trigger] first_invalid(names, at) && name@ == names[at]@;
        assert(names[at]@ == name@);
    }
    if let Ok(code) = r {
        let (collecting, context) = choose|collecting: Texts, context: Texts|
            {
                &&& #[trigger] collects(printed(args@[0]), names, collecting, context)
                &&& tokens(code) == generated(
                    *target_fn,
                    args@,
                    is_fetch,
                    *page_req,
                    collecting,
                    context,
                )
            };
        let span = choose|span: Span| #[trigger]
            collects_at(printed(args@[0]), names, span, collecting, context);
        lemma_collected(printed(args@[0]), names, span, collecting, context);
        lemma_generated(*target_fn, args@, is_fetch, *page_req, collecting, context);
    }
}

} // verus!
