//! Output names: the extension that goes with a stream filter, and the file
//! name that is built from the coordinates of an image.

use crate::decimal::lemma_digits_only;
use crate::decimal::lemma_padded_round_trip;
use crate::decimal::lemma_signed_characters;
use crate::decimal::lemma_signed_distinct;
use crate::decimal::push_padded;
use crate::decimal::push_signed;
use crate::decimal::spec_digit_value;
use crate::decimal::spec_padded;
use crate::decimal::spec_signed;
use vstd::prelude::*;
use vstd::string::*;

verus! {

/// The filter that the last encoding step of an image stream names.
#[derive(Clone, Copy, Debug, PartialEq, Eq, Structural)]
pub enum FilterTag {
    AsciiHex,
    Ascii85,
    Lzw,
    Flate,
    Jpx,
    Dct,
    CcittFax,
    Jbig2,
    Crypt,
    RunLength,
}

/// Extension of the files written for a filter; `None` where the format is
/// not supported. An image without a filter is not supported either.
pub open spec fn spec_extension(filter: Option<FilterTag>) -> Option<Seq<char>> {
    match filter {
        Some(FilterTag::Dct) => Some(seq!['j', 'p', 'g']),
        Some(FilterTag::Jbig2) => Some(seq!['j', 'b', 'i', 'g', '2']),
        Some(FilterTag::Jpx) => Some(seq!['j', 'p', '2', 'k']),
        _ => None,
    }
}

/// Extension for the files of one filter, `None` for an unsupported format.
pub fn extension_for(filter: Option<FilterTag>) -> (ext: Option<&'static str>)
    ensures
        ext is Some <==> spec_extension(filter) is Some,
        ext matches Some(text) ==> spec_extension(filter) == Some(text@),
{
    match filter {
        Some(FilterTag::Dct) => {
            proof {
                reveal_strlit("jpg");
                assert("jpg"@ =~= seq!['j', 'p', 'g']);
            }
            Some("jpg")
        },
        Some(FilterTag::Jbig2) => {
            proof {
                reveal_strlit("jbig2");
                assert("jbig2"@ =~= seq!['j', 'b', 'i', 'g', '2']);
            }
            Some("jbig2")
        },
        Some(FilterTag::Jpx) => {
            proof {
                reveal_strlit("jp2k");
                assert("jp2k"@ =~= seq!['j', 'p', '2', 'k']);
            }
            Some("jp2k")
        },
        _ => None,
    }
}

/// Width to which ordinals and tags are padded in a file name.
pub const FIELD_WIDTH: usize = 6;

/// Where an image stands: the time stamp of its document's run, its ordinal
/// within the page, the page's ordinal within the document, and the tags of
/// the dispatcher and of the page worker.
#[derive(Clone, Copy, Debug, PartialEq, Eq, Structural)]
pub struct ImageSlot {
    pub stamp: i64,
    pub image: u64,
    pub page: u64,
    pub dispatcher: u64,
    pub worker: u64,
}

/// The file name of the image at `slot` with extension `ext`:
/// `image_<stamp>_<image>_<page>_<dispatcher>_<worker>.<ext>`.
pub open spec fn spec_image_file_name(slot: ImageSlot, ext: Seq<char>) -> Seq<char> {
    seq!['i', 'm', 'a', 'g', 'e', '_'] + spec_signed(slot.stamp as int) + seq!['_'] + spec_padded(
        slot.image as nat,
        FIELD_WIDTH as nat,
    ) + seq!['_'] + spec_padded(slot.page as nat, FIELD_WIDTH as nat) + seq!['_'] + spec_padded(
        slot.dispatcher as nat,
        FIELD_WIDTH as nat,
    ) + seq!['_'] + spec_padded(slot.worker as nat, FIELD_WIDTH as nat) + seq!['.'] + ext
}

/// The file name of the image at `slot`, with extension `ext`.
pub fn image_file_name(slot: &ImageSlot, ext: &str) -> (name: String)
    ensures
        name@ == spec_image_file_name(*slot, ext@),
{
    let mut name = String::new();
    name.append("image_");
    proof {
        reveal_strlit("image_");
        reveal_strlit("_");
        reveal_strlit(".");
        assert("image_"@ =~= seq!['i', 'm', 'a', 'g', 'e', '_']);
        assert("_"@ =~= seq!['_']);
        assert("."@ =~= seq!['.']);
        assert(name@ =~= seq!['i', 'm', 'a', 'g', 'e', '_']);
    }
    push_signed(&mut name, slot.stamp);
    name.append("_");
    push_padded(&mut name, slot.image, FIELD_WIDTH);
    name.append("_");
    push_padded(&mut name, slot.page, FIELD_WIDTH);
    name.append("_");
    push_padded(&mut name, slot.dispatcher, FIELD_WIDTH);
    name.append("_");
    push_padded(&mut name, slot.worker, FIELD_WIDTH);
    name.append(".");
    name.append(ext);
    name
}

/// Two texts that are equal, each a part without the separator, then the
/// separator, then a rest, have the same part and the same rest.
proof fn lemma_split_at_separator(
    part_a: Seq<char>,
    rest_a: Seq<char>,
    part_b: Seq<char>,
    rest_b: Seq<char>,
    separator: char,
)
    requires
        forall|k: int| 0 <= k < part_a.len() ==> part_a[k] != separator,
        forall|k: int| 0 <= k < part_b.len() ==> part_b[k] != separator,
        part_a + seq![separator] + rest_a == part_b + seq![separator] + rest_b,
    ensures
        part_a == part_b,
        rest_a == rest_b,
{
    let whole_a = part_a + seq![separator] + rest_a;
    let whole_b = part_b + seq![separator] + rest_b;
    if part_a.len() < part_b.len() {
        assert(whole_a[part_a.len() as int] == separator);
        assert(whole_b[part_a.len() as int] == part_b[part_a.len() as int]);
        assert(false);
    }
    if part_b.len() < part_a.len() {
        assert(whole_b[part_b.len() as int] == separator);
        assert(whole_a[part_b.len() as int] == part_a[part_b.len() as int]);
        assert(false);
    }
    assert forall|k: int| 0 <= k < part_a.len() implies part_a[k] == part_b[k] by {
        assert(whole_a[k] == part_a[k]);
        assert(whole_b[k] == part_b[k]);
    }
    assert(part_a =~= part_b);
    assert(whole_a.len() == whole_b.len());
    assert forall|k: int| 0 <= k < rest_a.len() implies rest_a[k] == rest_b[k] by {
        assert(whole_a[part_a.len() + 1 + k] == rest_a[k]);
        assert(whole_b[part_b.len() + 1 + k] == rest_b[k]);
    }
    assert(rest_a =~= rest_b);
}

/// A padded number holds neither the separator of the fields nor the dot.
proof fn lemma_padded_characters(n: nat)
    ensures
        forall|k: int|
            0 <= k < spec_padded(n, FIELD_WIDTH as nat).len() ==> spec_padded(
                n,
                FIELD_WIDTH as nat,
            )[k] != '_' && spec_padded(n, FIELD_WIDTH as nat)[k] != '.',
{
    let text = spec_padded(n, FIELD_WIDTH as nat);
    lemma_padded_round_trip(n, FIELD_WIDTH as nat);
    lemma_digits_only(text);
    assert forall|k: int| 0 <= k < text.len() implies text[k] != '_' && text[k] != '.' by {
        assert(spec_digit_value(text[k]) is Some);
    }
}

/// Two numbers with the same padded text are the same.
proof fn lemma_padded_distinct(left: nat, right: nat)
    requires
        spec_padded(left, FIELD_WIDTH as nat) == spec_padded(right, FIELD_WIDTH as nat),
    ensures
        left == right,
{
    lemma_padded_round_trip(left, FIELD_WIDTH as nat);
    lemma_padded_round_trip(right, FIELD_WIDTH as nat);
}

/// The fields of a file name, each with the separator that follows it, and
/// the extension: what stands behind `image_`.
spec fn spec_fields(slot: ImageSlot, ext: Seq<char>) -> Seq<char> {
    spec_signed(slot.stamp as int) + seq!['_'] + spec_fields_from_image(slot, ext)
}

spec fn spec_fields_from_image(slot: ImageSlot, ext: Seq<char>) -> Seq<char> {
    spec_padded(slot.image as nat, FIELD_WIDTH as nat) + seq!['_'] + spec_fields_from_page(
        slot,
        ext,
    )
}

spec fn spec_fields_from_page(slot: ImageSlot, ext: Seq<char>) -> Seq<char> {
    spec_padded(slot.page as nat, FIELD_WIDTH as nat) + seq!['_'] + spec_fields_from_dispatcher(
        slot,
        ext,
    )
}

spec fn spec_fields_from_dispatcher(slot: ImageSlot, ext: Seq<char>) -> Seq<char> {
    spec_padded(slot.dispatcher as nat, FIELD_WIDTH as nat) + seq!['_'] + (spec_padded(
        slot.worker as nat,
        FIELD_WIDTH as nat,
    ) + seq!['.'] + ext)
}

/// The file name, read as its fields one after the other.
proof fn lemma_name_in_fields(slot: ImageSlot, ext: Seq<char>)
    ensures
        spec_image_file_name(slot, ext) == seq!['i', 'm', 'a', 'g', 'e', '_'] + spec_fields(
            slot,
            ext,
        ),
{
    let width = FIELD_WIDTH as nat;
    let head = seq!['i', 'm', 'a', 'g', 'e', '_'];
    let bar = seq!['_'];
    let worker_on = spec_padded(slot.worker as nat, width) + seq!['.'] + ext;
    let with_stamp = head + spec_signed(slot.stamp as int) + bar;
    let with_image = with_stamp + spec_padded(slot.image as nat, width) + bar;
    let with_page = with_image + spec_padded(slot.page as nat, width) + bar;
    let with_dispatcher = with_page + spec_padded(slot.dispatcher as nat, width) + bar;
    lemma_regroup(head, spec_signed(slot.stamp as int), bar, spec_fields_from_image(slot, ext));
    lemma_regroup(
        with_stamp,
        spec_padded(slot.image as nat, width),
        bar,
        spec_fields_from_page(slot, ext),
    );
    lemma_regroup(
        with_image,
        spec_padded(slot.page as nat, width),
        bar,
        spec_fields_from_dispatcher(slot, ext),
    );
    lemma_regroup(with_page, spec_padded(slot.dispatcher as nat, width), bar, worker_on);
    lemma_regroup(with_dispatcher, spec_padded(slot.worker as nat, width), seq!['.'], ext);
}

/// Moving brackets in a row of four texts.
proof fn lemma_regroup(front: Seq<char>, field: Seq<char>, separator: Seq<char>, rest: Seq<char>)
    ensures
        front + (field + separator + rest) == front + field + separator + rest,
{
    assert(front + (field + separator + rest) =~= front + field + separator + rest);
}

/// Names do not collide. Two file names are the same only for the same
/// slot and the same extension: images that differ in their time stamp, in
/// an ordinal or in a tag get different names, whatever their payloads.
pub proof fn lemma_names_distinct(
    slot_a: ImageSlot,
    ext_a: Seq<char>,
    slot_b: ImageSlot,
    ext_b: Seq<char>,
)
    requires
        spec_image_file_name(slot_a, ext_a) == spec_image_file_name(slot_b, ext_b),
    ensures
        slot_a == slot_b,
        ext_a == ext_b,
{
    let head = seq!['i', 'm', 'a', 'g', 'e', '_'];
    lemma_name_in_fields(slot_a, ext_a);
    lemma_name_in_fields(slot_b, ext_b);
    let fields_a = spec_fields(slot_a, ext_a);
    let fields_b = spec_fields(slot_b, ext_b);
    assert(fields_a =~= (head + fields_a).subrange(6, (head + fields_a).len() as int));
    assert(fields_b =~= (head + fields_b).subrange(6, (head + fields_b).len() as int));
    assert(fields_a == fields_b);

    lemma_signed_characters(slot_a.stamp as int);
    lemma_signed_characters(slot_b.stamp as int);
    lemma_split_at_separator(
        spec_signed(slot_a.stamp as int),
        spec_fields_from_image(slot_a, ext_a),
        spec_signed(slot_b.stamp as int),
        spec_fields_from_image(slot_b, ext_b),
        '_',
    );
    lemma_signed_distinct(slot_a.stamp as int, slot_b.stamp as int);

    lemma_padded_characters(slot_a.image as nat);
    lemma_padded_characters(slot_b.image as nat);
    lemma_split_at_separator(
        spec_padded(slot_a.image as nat, FIELD_WIDTH as nat),
        spec_fields_from_page(slot_a, ext_a),
        spec_padded(slot_b.image as nat, FIELD_WIDTH as nat),
        spec_fields_from_page(slot_b, ext_b),
        '_',
    );
    lemma_padded_distinct(slot_a.image as nat, slot_b.image as nat);

    lemma_padded_characters(slot_a.page as nat);
    lemma_padded_characters(slot_b.page as nat);
    lemma_split_at_separator(
        spec_padded(slot_a.page as nat, FIELD_WIDTH as nat),
        spec_fields_from_dispatcher(slot_a, ext_a),
        spec_padded(slot_b.page as nat, FIELD_WIDTH as nat),
        spec_fields_from_dispatcher(slot_b, ext_b),
        '_',
    );
    lemma_padded_distinct(slot_a.page as nat, slot_b.page as nat);

    lemma_padded_characters(slot_a.dispatcher as nat);
    lemma_padded_characters(slot_b.dispatcher as nat);
    lemma_split_at_separator(
        spec_padded(slot_a.dispatcher as nat, FIELD_WIDTH as nat),
        spec_padded(slot_a.worker as nat, FIELD_WIDTH as nat) + seq!['.'] + ext_a,
        spec_padded(slot_b.dispatcher as nat, FIELD_WIDTH as nat),
        spec_padded(slot_b.worker as nat, FIELD_WIDTH as nat) + seq!['.'] + ext_b,
        '_',
    );
    lemma_padded_distinct(slot_a.dispatcher as nat, slot_b.dispatcher as nat);

    lemma_padded_characters(slot_a.worker as nat);
    lemma_padded_characters(slot_b.worker as nat);
    lemma_split_at_separator(
        spec_padded(slot_a.worker as nat, FIELD_WIDTH as nat),
        ext_a,
        spec_padded(slot_b.worker as nat, FIELD_WIDTH as nat),
        ext_b,
        '.',
    );
    lemma_padded_distinct(slot_a.worker as nat, slot_b.worker as nat);
}

} // verus!
