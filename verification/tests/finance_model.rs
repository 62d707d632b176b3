use yizu_pages::finance::form::{check_finance_form, form_title, kept_urls, take_picked_files, FinanceForm};
use yizu_pages::finance::model::{
    active_finance_ids, bill_finance_link_counts, civil_from_days, days_from_civil, format_date,
    format_money, money_input, parse_date, reimbursement_finance_link_counts, today,
    utility_bill_link_counts,
};
use yizu_pages::finance::overview::{masked_money, FinanceProof};
use yizu_pages::finance::summary::{balance_label, finance_overview, history_query};
use yizu_pages::records::{AmountBill, Finance, Reimbursement};
use yizu_pages::timestamp::Timestamp;

fn finance(finance_id: u64, is_deleted: bool) -> Finance {
    Finance { finance_id, amount_cents: 100, is_deleted }
}

fn bill(bill_id: u64, finance_id: u64) -> AmountBill {
    AmountBill { bill_id, finance_id }
}

fn reimbursement(finance_id: Option<u64>, is_deleted: bool) -> Reimbursement {
    Reimbursement { id: 1, finance_id, is_deleted }
}

#[test]
fn bill_links_split_linked_from_deleted_or_missing_entries() {
    let finances = [finance(1, false), finance(2, true)];
    let bills = [bill(10, 1), bill(11, 2), bill(12, 999)];
    assert_eq!(bill_finance_link_counts(&bills, &finances), (1, 2));
}

#[test]
fn utility_details_split_by_whether_the_bill_exists() {
    let bills = [bill(10, 1)];
    assert_eq!(utility_bill_link_counts(&[10, 10, 999], &bills), (2, 1));
}

#[test]
fn claims_split_generated_and_pending_entries() {
    let finances = [finance(1, false)];
    let rows = [
        reimbursement(Some(1), false),
        reimbursement(Some(999), false),
        reimbursement(None, false),
    ];
    assert_eq!(reimbursement_finance_link_counts(&rows, &finances), (1, 2));
}

#[test]
fn deleted_claims_skip_link_counts() {
    let mut deleted = reimbursement(Some(1), true);
    deleted.is_deleted = true;
    assert_eq!(reimbursement_finance_link_counts(&[deleted], &[]), (0, 0));
}

#[test]
fn money_is_grouped_and_signed() {
    assert_eq!(format_money(123_456_789), "¥1,234,567.89");
    assert_eq!(format_money(-5), "-¥0.05");
    assert_eq!(format_money(0), "¥0.00");
    assert_eq!(money_input(123_456), "1234.56");
    assert_eq!(money_input(-12_345), "-123.45");
    assert_eq!(masked_money(123_456), "¥ 1*****.56");
    assert_eq!(masked_money(-99), "-¥ 0*****.99");
}

#[test]
fn ledger_dates_read_and_write() {
    let t = parse_date("2026-07-13").unwrap();
    assert_eq!(format_date(t), "2026-07-13");
    assert_eq!(parse_date("2026-07-13-01"), Err("交易日期格式不正确".to_string()));
    assert_eq!(parse_date("2026-13-01"), Err("请选择正确的交易日期".to_string()));
    assert_eq!(days_from_civil(1970, 1, 1), Some(0));
    assert_eq!(days_from_civil(2000, 3, 1), Some(11_017));
    assert_eq!(civil_from_days(11_017), (2000, 3, 1));
    assert_eq!(civil_from_days(-719_468), (0, 3, 1));
    assert_eq!(format_date(Timestamp::from_micros_since_unix_epoch(0)), "1970-01-01");
}

#[test]
fn live_ids_skip_deleted_entries() {
    let ids = active_finance_ids(&[finance(1, false), finance(2, true), finance(3, false)]);
    assert_eq!(ids.into_iter().collect::<Vec<_>>(), vec![1, 3]);
}

fn form() -> FinanceForm {
    FinanceForm {
        bill_name: " 七月租金 ".to_string(),
        category: "账单收入".to_string(),
        transaction_type: "收入".to_string(),
        date: "2026-07-13".to_string(),
        park_id: 0,
        remark: "  ".to_string(),
    }
}

#[test]
fn finance_form_checks_amount_date_then_name() {
    assert_eq!(form_title(true), "修改收支");
    assert_eq!(form_title(false), "新增收支");
    let f = form();
    assert_eq!(
        check_finance_form(&f, Err("流水金额格式不正确".to_string())).unwrap_err(),
        "流水金额格式不正确"
    );
    let mut bad_date = form();
    bad_date.date = "2026/07/13".to_string();
    assert_eq!(check_finance_form(&bad_date, Ok(100)).unwrap_err(), "请选择正确的交易日期");
    let mut no_name = form();
    no_name.bill_name = "   ".to_string();
    assert_eq!(check_finance_form(&no_name, Ok(100)).unwrap_err(), "请输入账目名称");
    let input = check_finance_form(&f, Ok(250_000)).unwrap();
    assert_eq!(input.bill_name, " 七月租金 ");
    assert_eq!(input.amount_cents, 250_000);
    assert_eq!(input.remark, None);
    assert_eq!(input.park_id, None);
    assert_eq!(input.status, 1);
    assert_eq!(input.transaction_time, parse_date("2026-07-13").unwrap());
}

#[test]
fn kept_proofs_skip_removed_and_pending() {
    let proofs = vec![
        FinanceProof::Existing { id: 1, url: "a".to_string(), removed: false },
        FinanceProof::Existing { id: 2, url: "b".to_string(), removed: true },
        FinanceProof::Pending { name: "c.png".to_string(), preview_url: None },
        FinanceProof::Existing { id: 3, url: "d".to_string(), removed: false },
    ];
    assert_eq!(kept_urls(&proofs), vec!["a".to_string(), "d".to_string()]);
    assert_eq!(proofs[0].name(), "财务凭证 #1");
    assert_eq!(proofs[2].name(), "c.png");
    assert!(proofs[1].removed());
    assert_eq!(proofs[0].url(), Some("a"));
    assert_eq!(proofs[2].url(), None);
}

#[test]
fn overview_figures_and_bar_scale() {
    let finances = [finance(1, false), finance(2, true)];
    let bills = [bill(10, 1), bill(11, 2)];
    let claims = [reimbursement(Some(1), false), reimbursement(None, true)];
    let o = finance_overview(&finances, &bills, &[10, 99, 10], &[11], &claims);
    assert_eq!((o.ele_linked, o.ele_orphaned), (2, 1));
    assert_eq!((o.water_linked, o.water_orphaned), (1, 0));
    assert_eq!((o.bill_linked, o.bill_orphaned), (1, 1));
    assert_eq!(o.finance_count, 1);
    assert_eq!(o.reimbursement_count, 1);
    assert_eq!((o.reimbursement_linked, o.reimbursement_pending), (1, 0));
    assert_eq!(o.max_count, 3);
    let empty = finance_overview(&[], &[], &[], &[], &[]);
    assert_eq!(empty.max_count, 1);
}

#[test]
fn balance_holds_at_the_ends() {
    assert_eq!(balance_label(500, 200), "¥3.00");
    assert_eq!(balance_label(i64::MIN, 1), format_money(i64::MIN));
}

#[test]
fn history_query_from_filters() {
    let q = history_query(2, "租金", "全部", 0, "2026-07-01", "2026-07-31");
    assert_eq!(q.page, 2);
    assert_eq!(q.page_size, 20);
    assert_eq!(q.transaction_type, None);
    assert_eq!(q.park_id, None);
    assert_eq!(q.start_time_micros, Some(parse_date("2026-07-01").unwrap().to_micros_since_unix_epoch()));
    assert_eq!(
        q.end_time_micros,
        Some(parse_date("2026-08-01").unwrap().to_micros_since_unix_epoch() - 1)
    );
    let q = history_query(1, "", "支出", 5, "", "x");
    assert_eq!(q.transaction_type, Some("支出".to_string()));
    assert_eq!(q.park_id, Some(5));
    assert_eq!(q.start_time_micros, None);
    assert_eq!(q.end_time_micros, None);
}

#[test]
fn delete_question_names_the_entry() {
    assert_eq!(
        yizu_pages::finance::summary::delete_description("七月租金", 123_456),
        "将归档“七月租金”（¥1,234.56），历史关联账单或报销不会被物理删除。"
    );
}

#[test]
fn ledger_day_numbers_round_trip() {
    for days in [-719_468i64, -1, 0, 20_647, 2_932_896] {
        let (y, m, d) = civil_from_days(days);
        assert_eq!(days_from_civil(y as i32, m, d), Some(days));
    }
    assert_eq!(civil_from_days(-719_468), (0, 3, 1));
    assert_eq!(civil_from_days(-1), (1969, 12, 31));
    assert_eq!(civil_from_days(20_647), (2026, 7, 13));
}

#[test]
fn ledger_today_is_the_china_date_of_the_reading() {
    assert_eq!(today(0), "1970-01-01");
    assert_eq!(today(1_784_079_000_000_000), "2026-07-15");
    assert_eq!(today(1_784_044_799_999_999), "2026-07-14");
}

#[test]
fn picked_proof_files_stop_at_eight() {
    let ok = || Ok::<(), String>(());
    assert_eq!(take_picked_files(0, &[ok(), ok()]), (2, None));
    assert_eq!(
        take_picked_files(7, &[ok(), ok(), ok()]),
        (1, Some("每条财务流水最多上传 8 张凭证".to_string()))
    );
    assert_eq!(
        take_picked_files(8, &[ok()]),
        (0, Some("每条财务流水最多上传 8 张凭证".to_string()))
    );
    assert_eq!(
        take_picked_files(2, &[ok(), Err("图片过大".to_string()), ok()]),
        (1, Some("图片过大".to_string()))
    );
    assert_eq!(take_picked_files(3, &[]), (0, None));
}
