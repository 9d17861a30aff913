use pdf_images::thread_tag::get_thread_id_number;
use pdf_images::thread_tag::number_in;

#[test]
fn thread_label_gives_its_number() {
    assert_eq!(get_thread_id_number("ThreadId(1)"), 1);
    assert_eq!(get_thread_id_number("ThreadId(5)"), 5);
    assert_eq!(get_thread_id_number("ThreadId(1234567)"), 1234567);
    assert_eq!(get_thread_id_number("ThreadId(18446744073709551615)"), u64::MAX);
}

#[test]
fn thread_label_without_a_number_gives_zero() {
    assert_eq!(get_thread_id_number(""), 0);
    assert_eq!(get_thread_id_number("ThreadId()"), 0);
    assert_eq!(get_thread_id_number("main"), 0);
}

#[test]
fn only_the_first_row_of_digits_counts() {
    assert_eq!(get_thread_id_number("worker 12 of 34"), 12);
    assert_eq!(get_thread_id_number("a007b9"), 7);
    assert_eq!(get_thread_id_number("-15"), 15);
    assert_eq!(get_thread_id_number("+15"), 15);
    assert_eq!(get_thread_id_number("1.5"), 1);
}

#[test]
fn a_number_that_is_too_large_gives_zero() {
    assert_eq!(get_thread_id_number("ThreadId(18446744073709551616)"), 0);
    assert_eq!(get_thread_id_number("ThreadId(99999999999999999999999)"), 0);
}

#[test]
fn a_row_of_digits_of_another_script_gives_zero() {
    assert_eq!(get_thread_id_number("٣ 12"), 0);
    assert_eq!(get_thread_id_number("x１２"), 0);
    assert_eq!(get_thread_id_number("1٣"), 0);
}

#[test]
fn number_in_a_run_of_digits() {
    assert_eq!(number_in(Some("42")), 42);
    assert_eq!(number_in(Some("0042")), 42);
    assert_eq!(number_in(Some("+42")), 42);
    assert_eq!(number_in(Some("")), 0);
    assert_eq!(number_in(Some("4x2")), 0);
    assert_eq!(number_in(Some("18446744073709551616")), 0);
    assert_eq!(number_in(None), 0);
}
