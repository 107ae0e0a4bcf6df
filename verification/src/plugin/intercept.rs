//! SQL interceptors: each sees a statement and its arguments before they run,
//! may change them, may refuse them, and may have a line to log.

use serde_json::Value;
use std::fmt::Debug;
use vstd::prelude::*;
use vstd::string::*;

use crate::error::Error;
use crate::log::LogLine;
use crate::text::{contains_outside_quotes, lowered, replaced_first, starts_in_any_case, trim};

verus! {

#[verifier::external_type_specification]
#[verifier::external_body]
pub struct ExValue(Value);

/// A JSON value as it prints: compact JSON.
pub uninterp spec fn json_text(value: Value) -> Seq<char>;

/// `Display` of `serde_json::Value`.
#[verifier::external_body]
fn print_json(value: &Value) -> (r: String)
    ensures
        r@ == json_text(*value),
{
    format!("{}", value)
}

/// The databases that are spoken to.
#[derive(Clone, Copy, Debug, PartialEq, Eq, Structural)]
pub enum DriverType {
    NoDriver,
    Mysql,
    Postgres,
    Sqlite,
    Mssql,
}

/// A keyword of SQL, bare and with a space on either side.
#[derive(Debug)]
pub struct SqlKeyword {
    pub value: String,
    pub left_right_space: String,
}

/// The keywords that the interceptors look for, as statements spell them.
#[derive(Debug)]
pub struct SqlTemplate {
    pub delete_from: SqlKeyword,
    pub update: SqlKeyword,
    pub r_where: SqlKeyword,
}

/// What interceptors know of the ORM that a statement runs in.
#[derive(Debug)]
pub struct Rbatis {
    /// The database behind the connection pool, or why there is none.
    pub driver_type: Result<DriverType, Error>,
    /// What that database writes in a statement in place of each argument.
    pub placeholders: Vec<String>,
    pub template: SqlTemplate,
}

/// `sql` with the first `n` arguments put in, each where its placeholder stands
/// leftmost at that time.
pub open spec fn filled(
    sql: Seq<char>,
    placeholders: Seq<String>,
    args: Seq<Seq<char>>,
    n: nat,
) -> Seq<char>
    decreases n,
{
    if n == 0 {
        "[format_sql]"@ + sql
    } else {
        crate::text::replace_first(
            filled(sql, placeholders, args, (n - 1) as nat),
            placeholders[n - 1]@,
            args[n - 1],
        )
    }
}

/// `sql` with its arguments put in; one that has no placeholder is left out.
pub open spec fn formatted(
    sql: Seq<char>,
    placeholders: Seq<String>,
    args: Seq<Seq<char>>,
) -> Seq<char> {
    filled(
        sql,
        placeholders,
        args,
        if args.len() <= placeholders.len() {
            args.len()
        } else {
            placeholders.len()
        },
    )
}

/// The arguments as they print.
pub open spec fn json_texts(args: Seq<Value>) -> Seq<Seq<char>> {
    args.map_values(|value: Value| json_text(value))
}

/// `sql` begins with `keyword` and has no `r_where` between spaces in it, the white
/// space at its ends, the case of letters and what stands between quotes put aside.
pub open spec fn hits_whole_table(
    sql: Seq<char>,
    keyword: SqlKeyword,
    r_where: SqlKeyword,
) -> bool {
    let sql = crate::text::trimmed(sql);
    &&& crate::text::occurs_at(lowered(sql), lowered(keyword.value@), 0)
    &&& !crate::text::occurs(
        lowered(crate::text::outside_quotes(sql)),
        lowered(r_where.left_right_space@),
    )
}

/// `r` refuses a statement that hits a whole table and lets any other pass.
pub open spec fn guards(
    r: Result<Option<LogLine>, Error>,
    message: Seq<char>,
    sql: Seq<char>,
    keyword: SqlKeyword,
    r_where: SqlKeyword,
) -> bool {
    if hits_whole_table(sql, keyword, r_where) {
        r matches Err(e) && e@ == message + crate::text::trimmed(sql)
    } else {
        r == Ok::<Option<LogLine>, Error>(None)
    }
}

/// Sees a statement and its arguments before they run.
pub trait SqlIntercept: Send + Sync + Debug {
    /// The name: by custom, the path of the type.
    fn name(&self) -> &str;

    /// Looks at a statement and its arguments, which it may change. The answer
    /// is a line for the log plugin, or the reason not to run the statement.
    /// `is_prepared_sql` says whether the statement runs as a prepared one.
    fn do_intercept(
        &self,
        rb: &Rbatis,
        context_id: &str,
        sql: &mut String,
        args: &mut Vec<Value>,
        is_prepared_sql: bool,
    ) -> Result<Option<LogLine>, Error>;
}

/// Logs each statement with its arguments put in.
#[derive(Debug)]
pub struct RbatisLogFormatSqlIntercept {}

/// Keeps a statement from deleting every row of a table: refuses one that begins
/// with the template's `delete_from` and does not hold its `r_where` between
/// spaces. The case of letters does not matter, and what stands between quotes is
/// no condition.
#[derive(Debug)]
pub struct BlockAttackDeleteInterceptor {}

/// Keeps a statement from updating every row of a table: refuses one that begins
/// with the template's `update` and does not hold its `r_where` between spaces. The
/// case of letters does not matter, and what stands between quotes is no condition.
#[derive(Debug)]
pub struct BlockAttackUpdateInterceptor {}

/// Puts the printed arguments into `sql`.
pub fn format_sql(sql: &str, placeholders: &Vec<String>, args: &Vec<String>) -> (r: String)
    ensures
        r@ == formatted(sql@, placeholders@, args@.map_values(|arg: String| arg@)),
{
    let ghost texts = args@.map_values(|arg: String| arg@);
    let mut out: String = "[format_sql]".to_owned();
    out.append(sql);
    let mut index: usize = 0;
    while index < args.len() && index < placeholders.len()
        invariant
            texts == args@.map_values(|arg: String| arg@),
            index <= args@.len(),
            index <= placeholders@.len(),
            out@ == filled(sql@, placeholders@, texts, index as nat),
        decreases args@.len() - index,
    {
        out = replaced_first(&out, &placeholders[index], &args[index]);
        index = index + 1;
    }
    out
}

impl SqlIntercept for RbatisLogFormatSqlIntercept {
    fn name(&self) -> (r: &str)
        ensures
            r@ == "rbatis::plugin::intercept::RbatisLogFormatSqlIntercept"@,
    {
        "rbatis::plugin::intercept::RbatisLogFormatSqlIntercept"
    }

    fn do_intercept(
        &self,
        rb: &Rbatis,
        context_id: &str,
        sql: &mut String,
        args: &mut Vec<Value>,
        is_prepared_sql: bool,
    ) -> (r: Result<Option<LogLine>, Error>)
        ensures
            final(sql)@ == old(sql)@,
            final(args)@ == old(args)@,
            match rb.driver_type {
                Err(missing) => r matches Err(e) && e@ == missing@,
                Ok(DriverType::NoDriver) => r == Ok::<Option<LogLine>, Error>(None),
                Ok(_) => r matches Ok(Some(line)) && line@ == (
                    context_id@,
                    formatted(old(sql)@, rb.placeholders@, json_texts(old(args)@)),
                ),
            },
    {
        match &rb.driver_type {
            Err(e) => Err(Error { message: e.message.clone() }),
            Ok(DriverType::NoDriver) => Ok(None),
            Ok(_) => {
                let mut texts: Vec<String> = Vec::new();
                let mut index: usize = 0;
                while index < args.len()
                    invariant
                        index <= args@.len(),
                        texts@.map_values(|text: String| text@) == json_texts(args@).take(
                            index as int,
                        ),
                    decreases args@.len() - index,
                {
                    let ghost before = texts@;
                    texts.push(print_json(&args[index]));
                    index = index + 1;
                    assert(texts@.map_values(|text: String| text@) =~= before.map_values(
                        |text: String| text@,
                    ).push(json_text(args@[index - 1])));
                    assert(json_texts(args@).take(index as int) =~= json_texts(args@).take(
                        index - 1,
                    ).push(json_text(args@[index - 1])));
                }
                assert(json_texts(args@).take(index as int) =~= json_texts(args@));
                let text: String = format_sql(sql, &rb.placeholders, &texts);
                Ok(Some(LogLine { context_id: context_id.to_owned(), text }))
            },
        }
    }
}

/// Refuses `sql` with `message` where it hits a whole table.
fn block(sql: &str, keyword: &SqlKeyword, r_where: &SqlKeyword, message: &str) -> (r: Result<
    Option<LogLine>,
    Error,
>)
    ensures
        guards(r, message@, sql@, *keyword, *r_where),
{
    let sql: String = trim(sql);
    if starts_in_any_case(&sql, &keyword.value) && !contains_outside_quotes(
        &sql,
        &r_where.left_right_space,
    ) {
        let mut text: String = message.to_owned();
        text.append(&sql);
        return Err(Error { message: text });
    }
    Ok(None)
}

impl SqlIntercept for BlockAttackDeleteInterceptor {
    fn name(&self) -> (r: &str)
        ensures
            r@ == "rbatis::plugin::intercept::BlockAttackDeleteInterceptor"@,
    {
        "rbatis::plugin::intercept::BlockAttackDeleteInterceptor"
    }

    fn do_intercept(
        &self,
        rb: &Rbatis,
        context_id: &str,
        sql: &mut String,
        args: &mut Vec<Value>,
        is_prepared_sql: bool,
    ) -> (r: Result<Option<LogLine>, Error>)
        ensures
            final(sql)@ == old(sql)@,
            final(args)@ == old(args)@,
            guards(
                r,
                "[rbatis][BlockAttackDeleteInterceptor] not allow attack sql:"@,
                old(sql)@,
                rb.template.delete_from,
                rb.template.r_where,
            ),
    {
        block(
            sql,
            &rb.template.delete_from,
            &rb.template.r_where,
            "[rbatis][BlockAttackDeleteInterceptor] not allow attack sql:",
        )
    }
}

impl SqlIntercept for BlockAttackUpdateInterceptor {
    fn name(&self) -> (r: &str)
        ensures
            r@ == "rbatis::plugin::intercept::BlockAttackUpdateInterceptor"@,
    {
        "rbatis::plugin::intercept::BlockAttackUpdateInterceptor"
    }

    fn do_intercept(
        &self,
        rb: &Rbatis,
        context_id: &str,
        sql: &mut String,
        args: &mut Vec<Value>,
        is_prepared_sql: bool,
    ) -> (r: Result<Option<LogLine>, Error>)
        ensures
            final(sql)@ == old(sql)@,
            final(args)@ == old(args)@,
            guards(
                r,
                "[rbatis][BlockAttackUpdateInterceptor] not allow attack sql:"@,
                old(sql)@,
                rb.template.update,
                rb.template.r_where,
            ),
    {
        block(
            sql,
            &rb.template.update,
            &rb.template.r_where,
            "[rbatis][BlockAttackUpdateInterceptor] not allow attack sql:",
        )
    }
}

} // verus!
