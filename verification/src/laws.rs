//! What holds of a request from end to end.

use vstd::prelude::*;

use crate::error::Failure;
use crate::fingerprint::fingerprint_text;
use crate::format::OutputFormat;
use crate::pages::{all_digits, digits_value, is_selected, lists, page_order, selection_of};
use crate::render::{encoding_of, object_key_text, produced, Raster};
use crate::gate::admitted;
use crate::render::Parameters;
use crate::request::{
    after_file, after_rendering, after_uploads, answered, opened, Order, State,
};
use crate::scale::scale_accepted;
use crate::response::{answer_to, Answer};
use crate::text::decimal;
use crate::upload::{upload_result, Outcome};

verus! {

/// The names of a list of images.
pub open spec fn names(images: Seq<(Seq<char>, Seq<u8>)>) -> Seq<Seq<char>> {
    images.map_values(|image: (Seq<char>, Seq<u8>)| image.0)
}

/// Where nothing is selected, the pages of a document are rendered one after
/// the other from the first to the last, each once.
pub proof fn lemma_order_without_selection(total: nat)
    ensures
        page_order(None, total).len() == total,
        forall|i: int| 0 <= i < total ==> page_order(None, total)[i] == i,
    decreases total,
{
    if total > 0 {
        lemma_order_without_selection((total - 1) as nat);
    }
}

/// The pages rendered are the pages of the document that are selected, each
/// once, and they come in ascending order.
pub proof fn lemma_order_ascends(selection: Option<Set<nat>>, total: nat)
    ensures
        forall|i: int|
            0 <= i < page_order(selection, total).len() ==> {
                &&& (#[trigger] page_order(selection, total)[i]) < total
                &&& is_selected(selection, page_order(selection, total)[i])
            },
        forall|i: int, j: int|
            0 <= i < j < page_order(selection, total).len() ==> page_order(selection, total)[i]
                < page_order(selection, total)[j],
        forall|page: nat|
            page < total && is_selected(selection, page) ==> page_order(selection, total).contains(
                page,
            ),
    decreases total,
{
    if total > 0 {
        let last = (total - 1) as nat;
        let before = page_order(selection, last);
        let order = page_order(selection, total);
        lemma_order_ascends(selection, last);
        assert forall|i: int| 0 <= i < order.len() implies (#[trigger] order[i]) < total
            && is_selected(selection, order[i]) by {
            if i < before.len() {
                assert(order[i] == before[i]);
            }
        }
        assert forall|i: int, j: int| 0 <= i < j < order.len() implies order[i] < order[j] by {
            assert(order[i] == before[i]);
            if j < before.len() {
                assert(order[j] == before[j]);
            }
        }
        assert forall|page: nat| page < total && is_selected(selection, page) implies order.contains(
            page,
        ) by {
            if page < last {
                assert(before.contains(page));
                let i = choose|i: int| 0 <= i < before.len() && before[i] == page;
                assert(order[i] == page);
            } else {
                assert(order[order.len() - 1] == page);
            }
        }
    }
}

/// Where every attempt gave an image, there is one image for each page, in
/// the order of the pages, each under the object key of its page.
pub proof fn lemma_every_page_kept(
    fingerprint: Seq<char>,
    format: OutputFormat,
    pages: Seq<usize>,
    attempts: Seq<Option<Seq<u8>>>,
)
    requires
        attempts.len() <= pages.len(),
        forall|i: int| 0 <= i < attempts.len() ==> attempts[i] is Some,
    ensures
        produced(fingerprint, format, pages, attempts).len() == attempts.len(),
        forall|i: int|
            0 <= i < attempts.len() ==> produced(fingerprint, format, pages, attempts)[i] == (
                object_key_text(fingerprint, pages[i] as nat, format),
                attempts[i]->0,
            ),
    decreases attempts.len(),
{
    if attempts.len() > 0 {
        lemma_every_page_kept(fingerprint, format, pages, attempts.drop_last());
    }
}

/// Where every image was stored, the keys are reported in the order of the images.
pub proof fn lemma_all_stored(outcomes: Seq<Outcome>, keys: Seq<Seq<char>>)
    requires
        outcomes.len() == keys.len(),
        forall|i: int| 0 <= i < outcomes.len() ==> outcomes[i] == Outcome::Stored(keys[i]),
    ensures
        upload_result(outcomes) == Ok::<Seq<Seq<char>>, Failure>(keys),
    decreases outcomes.len(),
{
    if outcomes.len() > 0 {
        lemma_all_stored(outcomes.drop_last(), keys.drop_last());
        assert(keys.drop_last().push(keys.last()) =~= keys);
    } else {
        assert(keys =~= Seq::empty());
    }
}

/// Where one image could not be stored, the request fails with a storage
/// failure, whatever became of the other images.
pub proof fn lemma_one_failure_fails_all(outcomes: Seq<Outcome>, at: int)
    requires
        0 <= at < outcomes.len(),
        outcomes[at] is Failed,
    ensures
        upload_result(outcomes) matches Err(Failure::S3(_)),
        answer_to(upload_result(outcomes)) matches Answer::Error { status, .. } && status == 500,
    decreases outcomes.len(),
{
    if at < outcomes.len() - 1 {
        lemma_one_failure_fails_all(outcomes.drop_last(), at);
    } else if upload_result(outcomes.drop_last()) is Err {
        lemma_failures_are_storage_failures(outcomes.drop_last());
    }
}

/// No list of outcomes fails with anything but a storage failure.
pub proof fn lemma_failures_are_storage_failures(outcomes: Seq<Outcome>)
    ensures
        upload_result(outcomes) matches Err(failure) ==> failure is S3,
    decreases outcomes.len(),
{
    if outcomes.len() > 0 {
        lemma_failures_are_storage_failures(outcomes.drop_last());
    }
}

/// A document of `total` pages with nothing selected, every page of which is
/// rendered and every image of which is stored under its name, is answered
/// with exactly `total` keys: the object key of each page, in the order of
/// the pages.
pub proof fn lemma_whole_document(
    fingerprint: Seq<char>,
    format: OutputFormat,
    total: nat,
    pages: Seq<usize>,
    attempts: Seq<Option<Seq<u8>>>,
    outcomes: Seq<Outcome>,
)
    requires
        lists(pages, page_order(None, total)),
        attempts.len() == pages.len(),
        forall|i: int| 0 <= i < attempts.len() ==> attempts[i] is Some,
        outcomes.len() == attempts.len(),
        forall|i: int|
            0 <= i < outcomes.len() ==> outcomes[i] == Outcome::Stored(
                produced(fingerprint, format, pages, attempts)[i].0,
            ),
    ensures
        answer_to(upload_result(outcomes)) matches Answer::Images { status, success, images }
            && status == 200 && success && images.len() == total && forall|i: int|
            0 <= i < total ==> images[i] == object_key_text(fingerprint, i as nat, format),
{
    lemma_order_without_selection(total);
    lemma_every_page_kept(fingerprint, format, pages, attempts);
    let images = produced(fingerprint, format, pages, attempts);
    lemma_all_stored(outcomes, names(images));
}

/// The names of the images depend on the fingerprint, the format, the pages
/// and on which attempts gave an image, and on nothing else: two renderings
/// that agree in these give the same names in the same order.
pub proof fn lemma_names_are_determined(
    fingerprint: Seq<char>,
    format: OutputFormat,
    pages: Seq<usize>,
    first: Seq<Option<Seq<u8>>>,
    second: Seq<Option<Seq<u8>>>,
)
    requires
        first.len() == second.len(),
        forall|i: int| 0 <= i < first.len() ==> (first[i] is Some <==> second[i] is Some),
    ensures
        names(produced(fingerprint, format, pages, first)) == names(
            produced(fingerprint, format, pages, second),
        ),
    decreases first.len(),
{
    if first.len() > 0 {
        lemma_names_are_determined(
            fingerprint,
            format,
            pages,
            first.drop_last(),
            second.drop_last(),
        );
        let before_first = produced(fingerprint, format, pages, first.drop_last());
        let before_second = produced(fingerprint, format, pages, second.drop_last());
        let key = object_key_text(fingerprint, pages[first.len() - 1] as nat, format);
        if first.last() is Some {
            assert(names(before_first.push((key, first.last()->0))) =~= names(before_first).push(
                key,
            ));
            assert(names(before_second.push((key, second.last()->0))) =~= names(
                before_second,
            ).push(key));
        }
    } else {
        assert(names(produced(fingerprint, format, pages, first)) =~= names(
            produced(fingerprint, format, pages, second),
        ));
    }
}

/// The same content, asked for in the same format with the same pages
/// selected, is stored under the same keys whenever it is submitted: the
/// lists of pages of two such renderings are the same, and so are the names
/// of their images, where the same pages could be rendered.
pub proof fn lemma_resubmission_repeats_keys(
    content: Seq<u8>,
    format: OutputFormat,
    selection: Option<Set<nat>>,
    total: nat,
    first_pages: Seq<usize>,
    second_pages: Seq<usize>,
    first: Seq<Option<Seq<u8>>>,
    second: Seq<Option<Seq<u8>>>,
)
    requires
        lists(first_pages, page_order(selection, total)),
        lists(second_pages, page_order(selection, total)),
        first.len() == second.len(),
        forall|i: int| 0 <= i < first.len() ==> (first[i] is Some <==> second[i] is Some),
    ensures
        first_pages == second_pages,
        names(produced(fingerprint_text(content), format, first_pages, first)) == names(
            produced(fingerprint_text(content), format, second_pages, second),
        ),
{
    assert(first_pages =~= second_pages);
    lemma_names_are_determined(fingerprint_text(content), format, first_pages, first, second);
}

/// A document of `total` pages with nothing selected, every page of which
/// could be drawn and encoded, is rendered to exactly `total` images: that of
/// each page under the page's object key, in the order of the pages.
pub proof fn lemma_whole_document_rendered(
    content: Seq<u8>,
    format: OutputFormat,
    total: nat,
    pages: Seq<usize>,
    attempts: Seq<Option<Seq<u8>>>,
)
    requires
        lists(pages, page_order(None, total)),
        attempts.len() == pages.len(),
        forall|i: int| 0 <= i < attempts.len() ==> attempts[i] is Some,
    ensures
        produced(fingerprint_text(content), format, pages, attempts).len() == total,
        forall|i: int|
            0 <= i < total ==> (#[trigger] produced(
                fingerprint_text(content),
                format,
                pages,
                attempts,
            )[i]).0 == object_key_text(fingerprint_text(content), i as nat, format),
{
    lemma_order_without_selection(total);
    lemma_every_page_kept(fingerprint_text(content), format, pages, attempts);
}

/// Two rasters hold the same picture, or neither page could be drawn.
pub open spec fn same_picture(first: Option<Raster>, second: Option<Raster>) -> bool {
    match (first, second) {
        (None, None) => true,
        (Some(a), Some(b)) => a.size() == b.size() && a.pixels() == b.pixels(),
        _ => false,
    }
}

/// The same content, asked for in the same format with the same pages
/// selected and drawn to the same pictures, is rendered to the same images
/// under the same keys whenever it is submitted. This holds of every format
/// but AVIF and TIFF, whose bytes follow the machine as well as the picture.
pub proof fn lemma_resubmission_repeats_images(
    content: Seq<u8>,
    format: OutputFormat,
    selection: Option<Set<nat>>,
    total: nat,
    first_pages: Seq<usize>,
    second_pages: Seq<usize>,
    first_drawn: Seq<Option<Raster>>,
    second_drawn: Seq<Option<Raster>>,
    first: Seq<Option<Seq<u8>>>,
    second: Seq<Option<Seq<u8>>>,
)
    requires
        format.encodes_alike_everywhere(),
        lists(first_pages, page_order(selection, total)),
        lists(second_pages, page_order(selection, total)),
        first.len() == second.len(),
        first_drawn.len() == first.len(),
        second_drawn.len() == first.len(),
        forall|i: int|
            0 <= i < first.len() ==> same_picture(first_drawn[i], second_drawn[i]) && encoding_of(
                first_drawn[i],
                format,
                first[i],
            ) && encoding_of(second_drawn[i], format, second[i]),
    ensures
        produced(fingerprint_text(content), format, first_pages, first) == produced(
            fingerprint_text(content),
            format,
            second_pages,
            second,
        ),
{
    assert(first_pages =~= second_pages);
    assert forall|i: int| 0 <= i < first.len() implies first[i] == second[i] by {
        assert(same_picture(first_drawn[i], second_drawn[i]));
        assert(encoding_of(first_drawn[i], format, first[i]));
        assert(encoding_of(second_drawn[i], format, second[i]));
    }
    assert(first =~= second);
}

/// The course of a request that is admitted, brings a document of `total`
/// pages, selects nothing and asks for an accepted scale or none, every page
/// of which is drawn and encoded and every image of which is stored under its
/// name: its file is read, its pages are rendered, its images are stored, and
/// it is answered with status 200 and exactly `total` keys, the object key of
/// each page in the order of the pages. Nothing is logged.
pub proof fn lemma_whole_request(
    secret: Option<Seq<char>>,
    token: Option<Seq<char>>,
    format: OutputFormat,
    scale: Option<u32>,
    content: Seq<u8>,
    total: nat,
    pages: Seq<usize>,
    attempts: Seq<Option<Seq<u8>>>,
    outcomes: Seq<Outcome>,
)
    requires
        admitted(secret, token),
        scale matches Some(bits) ==> scale_accepted(bits),
        lists(pages, page_order(None, total)),
        attempts.len() == pages.len(),
        forall|i: int| 0 <= i < attempts.len() ==> attempts[i] is Some,
        outcomes.len() == attempts.len(),
        forall|i: int|
            0 <= i < outcomes.len() ==> outcomes[i] == Outcome::Stored(
                produced(fingerprint_text(content), format, pages, attempts)[i].0,
            ),
    ensures
        opened(secret, format, token, None, scale) == (
            State::Gated { format, pages: None, scale },
            Order::ReadFile,
        ),
        after_file(format, None, scale, Some(content)) == (
            State::Parsed,
            Order::Render { content, parameters: Parameters { format, scale, pages: None } },
        ),
        after_rendering(Ok(produced(fingerprint_text(content), format, pages, attempts))) == (
            State::Rendered { images: total },
            Order::Upload { images: produced(fingerprint_text(content), format, pages, attempts) },
        ),
        after_uploads(outcomes).0 == State::Uploaded,
        after_uploads(outcomes).1 matches Order::Respond { answer, log } && (log is None
            && (answer matches Answer::Images { status, success, images } && status == 200
            && success && images.len() == total && forall|i: int|
            0 <= i < total ==> images[i] == object_key_text(
                fingerprint_text(content),
                i as nat,
                format,
            ))),
{
    lemma_order_without_selection(total);
    lemma_every_page_kept(fingerprint_text(content), format, pages, attempts);
    lemma_whole_document(fingerprint_text(content), format, total, pages, attempts, outcomes);
    let images = produced(fingerprint_text(content), format, pages, attempts);
    lemma_all_stored(outcomes, names(images));
}

/// Two requests whose images have the same names, all of them stored, are
/// answered alike: with the same keys in the same order.
pub proof fn lemma_resubmission_repeats_answer(
    names: Seq<Seq<char>>,
    first: Seq<Outcome>,
    second: Seq<Outcome>,
)
    requires
        first.len() == names.len(),
        second.len() == names.len(),
        forall|i: int| 0 <= i < names.len() ==> first[i] == Outcome::Stored(names[i]),
        forall|i: int| 0 <= i < names.len() ==> second[i] == Outcome::Stored(names[i]),
    ensures
        after_uploads(first) == after_uploads(second),
        after_uploads(first).1 == answered(Ok(names)),
{
    lemma_all_stored(first, names);
    lemma_all_stored(second, names);
}

/// An expression that is accepted selects at least one page.
pub proof fn lemma_selection_is_never_empty(expression: Seq<char>)
    ensures
        selection_of(expression) matches Ok(pages) ==> exists|page: nat| pages.contains(page),
{
    if let Ok(pages) = selection_of(expression) {
        if forall|page: nat| !pages.contains(page) {
            assert(pages =~= Set::empty());
        }
    }
}

/// A number written in decimal is read back as the same number.
pub proof fn lemma_decimal_reads_back(n: nat)
    ensures
        decimal(n).len() > 0,
        all_digits(decimal(n)),
        digits_value(decimal(n)) == n,
    decreases n,
{
    if n < 10 {
        assert(decimal(n).drop_last() =~= Seq::empty());
        assert(digits_value(decimal(n).drop_last()) == 0);
    } else {
        lemma_decimal_reads_back(n / 10);
        assert(decimal(n).drop_last() =~= decimal(n / 10));
    }
}

/// The object keys of two pages of one document in one format are the same
/// only where the pages are: no image of a request takes the place of another.
pub proof fn lemma_keys_tell_pages_apart(
    fingerprint: Seq<char>,
    format: OutputFormat,
    page: nat,
    other: nat,
)
    requires
        object_key_text(fingerprint, page, format) == object_key_text(fingerprint, other, format),
    ensures
        page == other,
{
    let head = fingerprint + "-"@;
    let tail = "."@ + format.extension_text();
    let key = object_key_text(fingerprint, page, format);
    let other_key = object_key_text(fingerprint, other, format);
    assert(key =~= head + decimal(page) + tail);
    assert(other_key =~= head + decimal(other) + tail);
    assert(key.len() == head.len() + decimal(page).len() + tail.len());
    assert(other_key.len() == head.len() + decimal(other).len() + tail.len());
    assert forall|i: int| 0 <= i < decimal(page).len() implies decimal(page)[i] == decimal(
        other,
    )[i] by {
        assert(key[head.len() + i] == decimal(page)[i]);
        assert(other_key[head.len() + i] == decimal(other)[i]);
    }
    assert(decimal(page) =~= decimal(other));
    lemma_decimal_reads_back(page);
    lemma_decimal_reads_back(other);
}

/// With a secret configured, a request that presents no token or another
/// text than the secret is answered with status 401 and nothing is asked of
/// it; one that presents the secret goes on to have its file read.
pub proof fn lemma_gate(
    secret: Seq<char>,
    format: OutputFormat,
    token: Option<Seq<char>>,
    pages: Option<Seq<char>>,
    scale: Option<u32>,
)
    ensures
        token == Some(secret) ==> opened(Some(secret), format, token, pages, scale) == (
            State::Gated { format, pages, scale },
            Order::ReadFile,
        ),
        token != Some(secret) ==> opened(Some(secret), format, token, pages, scale) == (
            State::Failed,
            Order::Respond {
                answer: Answer::Error {
                    status: 401,
                    message: Failure::Unauthorized.message_text(),
                },
                log: Some(Failure::Unauthorized.description()),
            },
        ),
{
}

/// Without a secret configured every request is admitted, whatever token
/// it presents.
pub proof fn lemma_open_gate(
    format: OutputFormat,
    token: Option<Seq<char>>,
    pages: Option<Seq<char>>,
    scale: Option<u32>,
)
    ensures
        opened(None, format, token, pages, scale) == (
            State::Gated { format, pages, scale },
            Order::ReadFile,
        ),
{
}

} // verus!
