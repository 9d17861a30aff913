use pdf_images::decimal::decimal_len;
use pdf_images::decimal::parse_decimal;
use pdf_images::decimal::push_decimal;
use pdf_images::decimal::push_padded;
use pdf_images::decimal::push_signed;
use pdf_images::naming::extension_for;
use pdf_images::naming::image_file_name;
use pdf_images::naming::FilterTag;
use pdf_images::naming::ImageSlot;
use pdf_images::naming::FIELD_WIDTH;

const SAMPLES: [u64; 18] = [
    0,
    1,
    9,
    10,
    11,
    99,
    100,
    12345,
    99999,
    100000,
    999999,
    1000000,
    1234567,
    4294967295,
    4294967296,
    9223372036854775807,
    9223372036854775808,
    18446744073709551615,
];

#[test]
fn supported_filters_have_their_extensions() {
    assert_eq!(extension_for(Some(FilterTag::Dct)), Some("jpg"));
    assert_eq!(extension_for(Some(FilterTag::Jbig2)), Some("jbig2"));
    assert_eq!(extension_for(Some(FilterTag::Jpx)), Some("jp2k"));
}

#[test]
fn other_filters_have_no_extension() {
    assert_eq!(extension_for(None), None);
    assert_eq!(extension_for(Some(FilterTag::AsciiHex)), None);
    assert_eq!(extension_for(Some(FilterTag::Ascii85)), None);
    assert_eq!(extension_for(Some(FilterTag::Lzw)), None);
    assert_eq!(extension_for(Some(FilterTag::Flate)), None);
    assert_eq!(extension_for(Some(FilterTag::CcittFax)), None);
    assert_eq!(extension_for(Some(FilterTag::Crypt)), None);
    assert_eq!(extension_for(Some(FilterTag::RunLength)), None);
}

#[test]
fn decimal_text_is_that_of_the_number() {
    for n in SAMPLES {
        let mut out = String::from("x");
        push_decimal(&mut out, n);
        assert_eq!(out, format!("x{}", n));
        assert_eq!(decimal_len(n), n.to_string().len());
    }
}

#[test]
fn padded_text_is_filled_with_zeros() {
    for n in SAMPLES {
        let mut out = String::new();
        push_padded(&mut out, n, 6);
        assert_eq!(out, format!("{:06}", n));
        let mut wide = String::from("-");
        push_padded(&mut wide, n, 25);
        assert_eq!(wide, format!("-{:025}", n));
        let mut bare = String::new();
        push_padded(&mut bare, n, 0);
        assert_eq!(bare, n.to_string());
    }
    let mut out = String::new();
    push_padded(&mut out, 7, FIELD_WIDTH);
    assert_eq!(out, "000007");
}

#[test]
fn signed_text_has_a_minus_for_negative_numbers() {
    let samples = [0i64, 1, -1, 9, -9, 10, -10, 1700000000000000, -42, i64::MAX, i64::MIN, i64::MIN + 1];
    for n in samples {
        let mut out = String::new();
        push_signed(&mut out, n);
        assert_eq!(out, n.to_string());
    }
}

#[test]
fn file_name_follows_the_pattern() {
    let slot = ImageSlot { stamp: 1700000000123456, image: 1, page: 2, dispatcher: 3, worker: 4 };
    assert_eq!(
        image_file_name(&slot, "jpg"),
        "image_1700000000123456_000001_000002_000003_000004.jpg"
    );
    let wide =
        ImageSlot { stamp: -5, image: 1234567, page: 999999, dispatcher: u64::MAX, worker: 0 };
    assert_eq!(
        image_file_name(&wide, "jp2k"),
        "image_-5_1234567_999999_18446744073709551615_000000.jp2k"
    );
}

#[test]
fn file_name_is_what_formatting_gives() {
    for stamp in [0i64, -1, 1700000000123456, i64::MIN, i64::MAX] {
        for image in [0u64, 1, 999999, 1000000] {
            for page in [1u64, 42, u64::MAX] {
                for tag in [0u64, 7, 123456789] {
                    let slot = ImageSlot { stamp, image, page, dispatcher: tag, worker: tag + 1 };
                    let expected = format!(
                        "image_{}_{:06}_{:06}_{:06}_{:06}.{}",
                        stamp,
                        image,
                        page,
                        tag,
                        tag + 1,
                        "jbig2"
                    );
                    assert_eq!(image_file_name(&slot, "jbig2"), expected);
                }
            }
        }
    }
}

#[test]
fn names_differ_where_a_coordinate_differs() {
    let base = ImageSlot { stamp: 10, image: 1, page: 1, dispatcher: 1, worker: 1 };
    let mut names = vec![image_file_name(&base, "jpg")];
    names.push(image_file_name(&ImageSlot { stamp: 11, ..base }, "jpg"));
    names.push(image_file_name(&ImageSlot { image: 2, ..base }, "jpg"));
    names.push(image_file_name(&ImageSlot { page: 2, ..base }, "jpg"));
    names.push(image_file_name(&ImageSlot { dispatcher: 2, ..base }, "jpg"));
    names.push(image_file_name(&ImageSlot { worker: 2, ..base }, "jpg"));
    names.push(image_file_name(&ImageSlot { image: 11, page: 1, ..base }, "jpg"));
    names.push(image_file_name(&ImageSlot { image: 1, page: 11, ..base }, "jpg"));
    names.push(image_file_name(&ImageSlot { image: 1000001, page: 1, ..base }, "jpg"));
    names.push(image_file_name(&ImageSlot { image: 1, page: 1000001, ..base }, "jpg"));
    names.push(image_file_name(&base, "jp2k"));
    for a in 0..names.len() {
        for b in 0..a {
            assert_ne!(names[a], names[b]);
        }
    }
}

#[test]
fn parsing_reads_what_was_written() {
    for n in SAMPLES {
        assert_eq!(parse_decimal(&n.to_string()), Some(n));
        assert_eq!(parse_decimal(&format!("{:06}", n)), Some(n));
        assert_eq!(parse_decimal(&format!("+{}", n)), Some(n));
    }
}

#[test]
fn parsing_agrees_with_the_standard_parser() {
    let texts = [
        "",
        "+",
        "-",
        "0",
        "+0",
        "-0",
        "-1",
        "00",
        "007",
        "12a",
        "a12",
        "1 2",
        " 12",
        "12 ",
        "++1",
        "+-1",
        "1+",
        "18446744073709551615",
        "18446744073709551616",
        "18446744073709551620",
        "99999999999999999999",
        "184467440737095516150",
        "000000000000000000000000018446744073709551615",
        "000000000000000000000000018446744073709551616",
        "1844674407370955161x",
        "18446744073709551616x",
        "٣",
        "1٣",
        "１２",
        "1_000",
        "0x10",
        "1e3",
        "1.0",
    ];
    for text in texts {
        assert_eq!(parse_decimal(text), text.parse::<u64>().ok(), "{:?}", text);
    }
}
