use rbatis::error::Error;
use rbatis::log::LogLine;
use rbatis::plugin::intercept::{
    format_sql, BlockAttackDeleteInterceptor, BlockAttackUpdateInterceptor, DriverType, Rbatis,
    RbatisLogFormatSqlIntercept, SqlIntercept, SqlKeyword, SqlTemplate,
};
use serde_json::Value;

fn keyword(text: &str) -> SqlKeyword {
    SqlKeyword { value: text.to_string(), left_right_space: format!(" {} ", text) }
}

fn rbatis(driver_type: Result<DriverType, Error>, placeholders: Vec<&str>) -> Rbatis {
    Rbatis {
        driver_type,
        placeholders: placeholders.into_iter().map(String::from).collect(),
        template: SqlTemplate {
            delete_from: keyword("DELETE FROM"),
            update: keyword("UPDATE"),
            r_where: keyword("WHERE"),
        },
    }
}

fn intercept(
    interceptor: &dyn SqlIntercept,
    rb: &Rbatis,
    sql: &str,
    args: &[Value],
) -> Result<Option<LogLine>, Error> {
    let mut changed_sql = sql.to_string();
    let mut changed_args = args.to_vec();
    let r = interceptor.do_intercept(rb, "ctx", &mut changed_sql, &mut changed_args, true);
    assert_eq!(changed_sql, sql);
    assert_eq!(changed_args, args);
    r
}

fn mysql() -> Rbatis {
    rbatis(Ok(DriverType::Mysql), vec!["?", "?", "?"])
}

#[test]
fn log_shows_the_arguments() {
    let args = [Value::from(1), Value::from("it's \"x\""), Value::Null];
    let line = intercept(
        &RbatisLogFormatSqlIntercept {},
        &mysql(),
        "select * from t where a = ? and b = ? and c = ?",
        &args,
    );
    assert_eq!(
        line,
        Ok(Some(LogLine {
            context_id: "ctx".to_string(),
            text: "[format_sql]select * from t where a = 1 and b = \"it's \\\"x\\\"\" and c = null"
                .to_string(),
        }))
    );
}

#[test]
fn log_fills_numbered_placeholders() {
    let rb = rbatis(Ok(DriverType::Postgres), vec!["$1", "$2"]);
    let args = [
        serde_json::from_str::<Value>("{\"b\": [1, 2.5], \"a\": true}").unwrap(),
        Value::from(-7),
    ];
    let line = intercept(&RbatisLogFormatSqlIntercept {}, &rb, "x $2 y $1", &args).unwrap().unwrap();
    assert_eq!(line.text, "[format_sql]x -7 y {\"a\":true,\"b\":[1,2.5]}");
}

#[test]
fn an_argument_with_a_placeholder_in_it_is_filled_next() {
    let args = ["\"?\"".to_string(), "2".to_string()];
    let marks = vec!["?".to_string(), "?".to_string()];
    assert_eq!(format_sql("a ? b ?", &marks, &args.to_vec()), "[format_sql]a \"2\" b ?");
}

#[test]
fn log_leaves_a_statement_without_placeholders_alone() {
    let args = [Value::from(1)];
    let line = intercept(&RbatisLogFormatSqlIntercept {}, &mysql(), "select 1", &args);
    assert_eq!(line.unwrap().unwrap().text, "[format_sql]select 1");
    let line = intercept(&RbatisLogFormatSqlIntercept {}, &mysql(), "select ?", &[]);
    assert_eq!(line.unwrap().unwrap().text, "[format_sql]select ?");
}

#[test]
fn log_needs_a_driver() {
    let none = rbatis(Ok(DriverType::NoDriver), vec!["?"]);
    assert_eq!(intercept(&RbatisLogFormatSqlIntercept {}, &none, "select ?", &[]), Ok(None));
    let missing = Error { message: "[rbatis] rbatis pool not inited!".to_string() };
    let broken = rbatis(Err(missing), vec![]);
    assert_eq!(
        intercept(&RbatisLogFormatSqlIntercept {}, &broken, "select ?", &[]),
        Err(Error { message: "[rbatis] rbatis pool not inited!".to_string() })
    );
    for driver in [DriverType::Postgres, DriverType::Sqlite, DriverType::Mssql] {
        let line = intercept(&RbatisLogFormatSqlIntercept {}, &rbatis(Ok(driver), vec![]), "x", &[]);
        assert_eq!(line.unwrap().unwrap().text, "[format_sql]x");
    }
}

#[test]
fn delete_of_a_whole_table_is_refused() {
    let blocked = intercept(
        &BlockAttackDeleteInterceptor {},
        &mysql(),
        " \n\u{3000}DELETE FROM user\t",
        &[],
    );
    assert_eq!(
        blocked,
        Err(Error {
            message: "[rbatis][BlockAttackDeleteInterceptor] not allow attack sql:DELETE FROM user"
                .to_string(),
        })
    );
}

#[test]
fn delete_with_a_condition_passes() {
    let sql = "DELETE FROM user WHERE id = 1";
    assert_eq!(intercept(&BlockAttackDeleteInterceptor {}, &mysql(), sql, &[]), Ok(None));
    assert_eq!(intercept(&BlockAttackDeleteInterceptor {}, &mysql(), "UPDATE user", &[]), Ok(None));
    let sql = "select 'DELETE FROM'";
    assert_eq!(intercept(&BlockAttackDeleteInterceptor {}, &mysql(), sql, &[]), Ok(None));
}

#[test]
fn update_of_a_whole_table_is_refused() {
    let sql = "UPDATE user SET name = 'WHERE'";
    assert_eq!(
        intercept(&BlockAttackUpdateInterceptor {}, &mysql(), sql, &[]),
        Err(Error {
            message: format!(
                "[rbatis][BlockAttackUpdateInterceptor] not allow attack sql:{}",
                sql
            ),
        })
    );
}

#[test]
fn update_with_a_condition_passes() {
    let sql = "UPDATE user SET a = 1 WHERE id = 1";
    assert_eq!(intercept(&BlockAttackUpdateInterceptor {}, &mysql(), sql, &[]), Ok(None));
    assert_eq!(intercept(&BlockAttackUpdateInterceptor {}, &mysql(), "", &[]), Ok(None));
    let sql = "DELETE FROM user";
    assert_eq!(intercept(&BlockAttackUpdateInterceptor {}, &mysql(), sql, &[]), Ok(None));
}

#[test]
fn letter_case_does_not_matter() {
    for sql in ["delete from t", "Delete From t", "DELETE FROM t", "  dELETE fROM t\n"] {
        assert_eq!(
            intercept(&BlockAttackDeleteInterceptor {}, &mysql(), sql, &[]),
            Err(Error {
                message: format!(
                    "[rbatis][BlockAttackDeleteInterceptor] not allow attack sql:{}",
                    sql.trim()
                ),
            })
        );
    }
    for sql in ["update t set a = 1", "UPDATE t set a = 1", "Update t set a = 1"] {
        assert!(intercept(&BlockAttackUpdateInterceptor {}, &mysql(), sql, &[]).is_err());
    }
    let mut lower = mysql();
    lower.template.delete_from = keyword("delete from");
    lower.template.r_where = keyword("where");
    assert!(intercept(&BlockAttackDeleteInterceptor {}, &lower, "DELETE FROM t", &[]).is_err());
    for rb in [&mysql(), &lower] {
        for sql in ["DELETE FROM t WHERE id = 1", "delete from t where id = 1"] {
            assert_eq!(intercept(&BlockAttackDeleteInterceptor {}, rb, sql, &[]), Ok(None));
        }
    }
}

#[test]
fn quoted_text_is_no_condition() {
    for sql in [
        "UPDATE t SET note = 'a WHERE b'",
        "update t set note = 'a where b'",
        "update t set note = 'it''s where b', x = ''",
        "update t set note = \"it's where b\", x = 'y'",
        "update t set `a where b` = 1",
    ] {
        assert_eq!(
            intercept(&BlockAttackUpdateInterceptor {}, &mysql(), sql, &[]),
            Err(Error {
                message: format!(
                    "[rbatis][BlockAttackUpdateInterceptor] not allow attack sql:{}",
                    sql
                ),
            })
        );
    }
    for sql in [
        "UPDATE t SET note = 'a WHERE b' WHERE id = 1",
        "update t set note = \"it's\" where name = 'x'",
        "update t set note = 'it''s' where id = 1",
        "update t set note = 'open where id = 1",
    ] {
        assert_eq!(intercept(&BlockAttackUpdateInterceptor {}, &mysql(), sql, &[]), Ok(None));
    }
}

#[test]
fn white_space_at_the_end_is_no_condition() {
    let sql = "DELETE FROM user WHERE ";
    assert!(intercept(&BlockAttackDeleteInterceptor {}, &mysql(), sql, &[]).is_err());
}

#[test]
fn names_are_the_paths_of_the_types() {
    assert_eq!(
        RbatisLogFormatSqlIntercept {}.name(),
        "rbatis::plugin::intercept::RbatisLogFormatSqlIntercept"
    );
    assert_eq!(
        BlockAttackDeleteInterceptor {}.name(),
        "rbatis::plugin::intercept::BlockAttackDeleteInterceptor"
    );
    assert_eq!(
        BlockAttackUpdateInterceptor {}.name(),
        "rbatis::plugin::intercept::BlockAttackUpdateInterceptor"
    );
}
