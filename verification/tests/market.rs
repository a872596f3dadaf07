//! Symbol lists, panels and market data.
use tradingflow_agents::data::{
    ColumnType, DataError, MarketData, PANELS, SymbolBatch, build_market_data, key_of, panel_path,
    read_symbol_list, read_symbols, read_value_columns,
};
use tradingflow_agents::graph::{Builder, Node, Op, Payload, Rolling, Unary, Window, Wire};
use tradingflow_agents::score;
use tradingflow_agents::strategy_markowitz;
use tradingflow_agents::time::{DAY, Instant};

fn text(v: &[&str]) -> Vec<String> {
    v.iter().map(|s| s.to_string()).collect()
}

/// The value columns of six small panels.
fn columns() -> Vec<Vec<String>> {
    vec![
        text(&[
            "prices.close",
            "prices.open",
            "prices.high",
            "prices.low",
            "prices.volume",
            "prices.amount",
        ]),
        text(&["dividends.share", "dividends.cash"]),
        text(&["shares.total", "shares.circulating"]),
        text(&["balance_sheet.assets"]),
        text(&["report_year", "report_day_of_year", "income_statement.profit"]),
        text(&["report_year", "report_day_of_year", "cash_flow_statement.change"]),
    ]
}

fn built(columns: &Vec<Vec<String>>) -> (Builder, Result<MarketData, DataError>) {
    let mut b = Builder::new(text(&["A", "B"]));
    let m = build_market_data(&mut b, "dir", Some(Instant { nanos: 0 }), None, columns);
    (b, m)
}

fn node<'a, K>(b: &'a Builder, w: Wire<K>) -> &'a Node {
    &b.node_list()[w.index()]
}

#[test]
fn symbol_batches_are_joined() {
    let batches = vec![
        SymbolBatch { symbols: Some(text(&["A", "B"])), industries: Some(text(&["bank", ""])) },
        SymbolBatch { symbols: Some(text(&["C"])), industries: Some(text(&["food"])) },
    ];
    let list = read_symbol_list("s.parquet", &batches).unwrap();
    assert_eq!(list.symbols, text(&["A", "B", "C"]));
    assert_eq!(list.industries, text(&["bank", "", "food"]));
    let batches = vec![
        SymbolBatch {
            symbols: Some(text(&["600519.SH", "000001.SZ"])),
            industries: Some(text(&["drinks", "bank"])),
        },
        SymbolBatch {
            symbols: Some(text(&["300750.SZ", "000001"])),
            industries: Some(text(&["cells", ""])),
        },
    ];
    let list = read_symbol_list("s.parquet", &batches).unwrap();
    assert_eq!(list.symbols, text(&["000001", "000001.SZ", "300750.SZ", "600519.SH"]));
    assert_eq!(list.industries, text(&["", "bank", "cells", "drinks"]));
    let empty = read_symbol_list("s.parquet", &vec![]).unwrap();
    assert!(empty.symbols.is_empty() && empty.industries.is_empty());
}

#[test]
fn a_missing_column_is_named() {
    let batches = vec![SymbolBatch { symbols: None, industries: None }];
    assert_eq!(
        read_symbol_list("d/s.parquet", &batches).err(),
        Some("d/s.parquet: missing column \"symbol\"".to_string())
    );
    let batches = vec![SymbolBatch { symbols: Some(text(&["A"])), industries: None }];
    assert_eq!(
        read_symbol_list("d/s.parquet", &batches).err(),
        Some("d/s.parquet: missing column \"industry\"".to_string())
    );
    assert_eq!(
        read_symbols("s", &vec![Some(text(&["A"])), None]),
        Err("s: missing column \"symbol\"".to_string())
    );
    let uneven =
        vec![SymbolBatch { symbols: Some(text(&["A"])), industries: Some(text(&["x", "y"])) }];
    assert_eq!(
        read_symbol_list("s", &uneven).err(),
        Some("s: columns of different lengths".to_string())
    );
    let unsorted = vec![Some(text(&["b", "a"])), Some(text(&["ab", "B"]))];
    assert_eq!(read_symbols("s", &unsorted), Ok(text(&["B", "a", "ab", "b"])));
}

#[test]
fn value_columns_are_numeric() {
    let columns = vec![
        ("date".to_string(), ColumnType::Other),
        ("symbol".to_string(), ColumnType::Other),
        ("prices.close".to_string(), ColumnType::Float64),
        ("listed".to_string(), ColumnType::Boolean),
        ("report_year".to_string(), ColumnType::Int32),
    ];
    assert_eq!(
        read_value_columns(&columns),
        text(&["prices.close", "listed", "report_year"])
    );
    assert!(read_value_columns(&vec![]).is_empty());
}

#[test]
fn columns_are_keyed_under_their_prefix() {
    assert_eq!(key_of("prices", "prices.close"), "prices.close");
    assert_eq!(key_of("prices", "prices"), "prices");
    assert_eq!(key_of("income_statement", "report_year"), "income_statement.report_year");
    assert_eq!(key_of("prices", "pricesx"), "prices.pricesx");
    assert_eq!(panel_path("dir", "dividends"), "dir/dividends.parquet");
    assert_eq!(PANELS.len(), 6);
}

#[test]
fn market_data_is_wired() {
    let (b, m) = built(&columns());
    let m = m.unwrap();
    assert_eq!(m.n, 2);
    assert_eq!(m.fields.len(), 17);
    assert_eq!(m.row_signals.len(), 6);
    assert!(m.absent(&["prices.close", "income_statement.report_year"]).is_none());
    assert_eq!(
        m.absent(&["prices.close", "prices.none"]),
        Some("no field \"prices.none\" among the 17 loaded".to_string())
    );
    assert_eq!(node(&b, m.daily).op, Op::Any);
    assert_eq!(node(&b, m.daily).inputs, vec![m.price_signals.index()]);
    assert_eq!(node(&b, m.close).op, Op::Collect);
    assert_eq!(
        node(&b, m.close).inputs,
        vec![m.price_signals.index(), m.field("prices.close").index(), m.daily.index()]
    );
    assert_eq!(node(&b, m.log_adj).op, Op::Unary(Unary::Ln));
    assert_eq!(node(&b, m.log_return).op, Op::Rolling(Rolling::Diff, Window::Count(1)));
    let first = &b.node_list()[0];
    assert_eq!(
        first.op,
        Op::Parquet { start: Some(Instant { nanos: 0 }), end: None, prefill: false }
    );
    match &first.data {
        Payload::Table { file, time, axis, columns } => {
            assert_eq!(file, "dir/daily_prices.parquet");
            assert_eq!(time, "date");
            assert_eq!(axis, "symbol");
            assert_eq!(columns.len(), 6);
        }
        _ => panic!("no table"),
    }
}

#[test]
fn nodes_read_only_nodes_before_them() {
    let (b, m) = built(&columns());
    assert!(m.is_ok());
    for (i, node) in b.node_list().iter().enumerate() {
        assert!(node.inputs.iter().all(|&k| k < i));
    }
    assert_eq!(b.size(), b.node_list().len());
    assert_eq!(b.axis_labels(), &text(&["A", "B"]));
}

#[test]
fn a_key_that_comes_twice_is_refused() {
    let mut twice = columns();
    twice[4].push("profit".to_string());
    twice[4].push("income_statement.profit".to_string());
    let (_, m) = built(&twice);
    match m {
        Err(e @ DataError::DuplicateField { panel: 4 }) => {
            assert_eq!(e.text("dir"), "dir/income_statements.parquet: duplicate field key");
        }
        _ => panic!("accepted"),
    }
}

#[test]
fn a_field_that_is_missing_is_refused() {
    let mut short = columns();
    short[1].pop();
    let (_, m) = built(&short);
    match m {
        Err(e @ DataError::NoField { index: 7 }) => {
            assert_eq!(
                e.text("dir"),
                "dir: no field \"dividends.cash\" in the Parquet panels"
            );
        }
        _ => panic!("accepted"),
    }
}

#[test]
fn the_scorer_prefills_share_counts() {
    let mut b = Builder::new(text(&["A"]));
    let end = Some(Instant { nanos: 7 * DAY });
    let m = score::data::build_market_data(&mut b, "p", None, end);
    let panels: Vec<&Node> =
        b.node_list().iter().filter(|n| matches!(n.op, Op::Parquet { .. })).collect();
    assert_eq!(panels.len(), 3);
    let mut prefilled = Vec::new();
    for n in panels {
        match (&n.op, &n.data) {
            (Op::Parquet { start, end: last, prefill }, Payload::Table { file, columns, .. }) => {
                assert_eq!(*start, None);
                assert_eq!(*last, end);
                prefilled.push((file.as_str(), columns.len(), *prefill));
            }
            _ => panic!("no table"),
        }
    }
    assert_eq!(
        prefilled,
        vec![
            ("p/daily_prices.parquet", 1, false),
            ("p/dividends.parquet", 2, false),
            ("p/equity_structures.parquet", 1, true),
        ]
    );
    assert_eq!(node(&b, m.close).op, Op::Collect);
    assert_eq!(node(&b, m.circulating).op, Op::Port(1));
    assert_eq!(node(&b, m.cash_divs).op, Op::Port(2));
}

#[test]
fn the_markowitz_data_names_its_columns() {
    let mut b = Builder::new(text(&["A", "B", "C"]));
    let m = strategy_markowitz::data::build_market_data(&mut b, "p", None, None);
    assert_eq!(m.n, 3);
    assert_eq!(node(&b, m.receivables).op, Op::Port(10));
    assert_eq!(node(&b, m.total_shares).op, Op::Port(1));
    assert_eq!(node(&b, m.circ_shares).op, Op::Port(2));
    assert_eq!(node(&b, m.parent_equity).op, Op::Unary(Unary::Neg));
    assert_eq!(node(&b, m.net_profit).op, Op::Annualize);
    let flow = node(&b, m.operating_cost).inputs[1];
    assert_eq!(b.node_list()[flow].op, Op::Port(6));
}
