//! Responding to a provider that refuses a request for its size.
//!
//! Gateways that count encoded attachments instead of tokens reject a request
//! whose conversation is nowhere near the model's token window. Nothing needs
//! summarizing in that case — something in the payload has to get smaller — and
//! only the model knows what the payload is for, so goose describes the largest
//! contributors and lets the model decide what to drop or shrink.
//!
//! How many bytes each message takes in a request is handed in, in the order of
//! the messages; a message of which it is not said counts for nothing.

use vstd::prelude::*;
use vstd::string::*;

use crate::conversation::{
    every_text_block_counts, message_views, texts, ContentView, Conversation, Message,
    MessageContent, MessageView,
};
use crate::text::{
    a_join_holds_every_part, decimal, join, joined, occurs, prefix, push_decimal, take_chars,
    three_parts_are_one, two_parts_are_one, views, what_comes_last_occurs, what_occurs_stays,
};

verus! {

/// How many times goose hands the model a description of what made the request
/// too large before it stops asking and removes the offending content itself.
pub const MAX_REQUEST_SIZE_ADVISORIES: usize = 2;

/// Content smaller than this is not worth naming as a culprit: a request is only
/// too large because of attachments, not because of a few lines of text.
pub const REPORTED_OFFENDER_BYTES: usize = 65_536;

/// How many culprits are named at most.
pub const REPORTED_OFFENDERS: usize = 3;

/// How much of a culprit's text is quoted at most.
pub const QUOTED_CHARS: usize = 160;

// ---------------------------------------------------------------------------
// Sizes for people
// ---------------------------------------------------------------------------

/// `n` in units of `unit`, to the nearest whole number; halfway between two, to
/// the even one.
pub open spec fn nearest(n: nat, unit: nat) -> nat {
    let q = n / unit;
    let r = n % unit;
    if 2 * r > unit || (2 * r == unit && q % 2 == 1) {
        q + 1
    } else {
        q
    }
}

/// The distance between the doubles around `n`, or one where they are closer.
pub open spec fn double_unit(n: nat) -> nat
    decreases n,
{
    if n < 0x20_0000_0000_0000 {
        1
    } else {
        2 * double_unit(n / 2)
    }
}

/// The double nearest to `n`.
pub open spec fn nearest_double(n: nat) -> nat {
    nearest(n, double_unit(n)) * double_unit(n)
}

/// A number of bytes as people read it: in MiB to the tenth, in KiB, or in bytes.
pub open spec fn size_text(n: nat) -> Seq<char> {
    let bytes = nearest_double(n);
    if bytes >= 1_048_576 {
        let tenths = nearest(bytes * 10, 1_048_576);
        decimal(tenths / 10) + "."@ + decimal(tenths % 10) + " MiB"@
    } else if bytes >= 1_024 {
        decimal(nearest(bytes, 1_024)) + " KiB"@
    } else {
        decimal(bytes) + " bytes"@
    }
}

fn to_nearest(n: u128, unit: u128) -> (r: u128)
    requires
        unit > 0,
        2 * unit <= u128::MAX,
    ensures
        r == nearest(n as nat, unit as nat),
{
    let q: u128 = n / unit;
    let rest: u128 = n % unit;
    proof {
        if unit == 1 {
            assert(rest == 0);
        } else {
            assert(n / unit < u128::MAX) by (nonlinear_arith)
                requires
                    unit >= 2,
                    n <= u128::MAX,
            ;
        }
    }
    if 2 * rest > unit || (2 * rest == unit && q % 2 == 1) {
        q + 1
    } else {
        q
    }
}

fn unit_around(n: u64) -> (r: u64)
    ensures
        r == double_unit(n as nat),
        n < 0x20_0000_0000_0000 ==> r == 1,
        n >= 0x20_0000_0000_0000 ==> r >= 2 && r * 0x10_0000_0000_0000 <= n,
    decreases n,
{
    if n < 0x20_0000_0000_0000 {
        1
    } else {
        let half: u64 = unit_around(n / 2);
        2 * half
    }
}

/// A number of bytes as people read it: in MiB to the tenth, in KiB, or in bytes.
pub fn human_bytes(bytes: usize) -> (r: String)
    ensures
        r@ == size_text(bytes as nat),
{
    let unit: u64 = unit_around(bytes as u64);
    let count: u128 = to_nearest(bytes as u128, unit as u128);
    proof {
        let n = bytes as nat;
        assert(count <= n + 1) by {
            assert(n / unit as nat <= n) by (nonlinear_arith)
                requires
                    unit >= 1,
            ;
        }
        assert(unit <= 0x1000);
        assert(count * unit <= 0x1_0000_0000_0000_0000 * 0x1000) by (nonlinear_arith)
            requires
                count <= 0x1_0000_0000_0000_0000,
                unit <= 0x1000,
        ;
    }
    let bytes: u128 = count * unit as u128;
    let mut text: String = String::new();
    if bytes >= 1_048_576 {
        let tenths: u128 = to_nearest(bytes * 10, 1_048_576);
        assert(tenths / 10 <= u64::MAX);
        push_decimal(&mut text, (tenths / 10) as u64);
        text.append(".");
        push_decimal(&mut text, (tenths % 10) as u64);
        text.append(" MiB");
    } else if bytes >= 1_024 {
        push_decimal(&mut text, to_nearest(bytes, 1_024) as u64);
        text.append(" KiB");
    } else {
        push_decimal(&mut text, bytes as u64);
        text.append(" bytes");
    }
    text
}

// ---------------------------------------------------------------------------
// What a message is made of
// ---------------------------------------------------------------------------

/// The kinds of the attachments, in order.
pub open spec fn attachments(blocks: Seq<ContentView>) -> Seq<Seq<char>>
    decreases blocks.len(),
{
    if blocks.len() == 0 {
        Seq::empty()
    } else {
        let rest = attachments(blocks.drop_last());
        match blocks.last() {
            ContentView::Image { mime_type, .. } => rest.push(mime_type),
            ContentView::Document { mime_type, .. } => rest.push(mime_type),
            _ => rest,
        }
    }
}

/// What a message is made of, in a few words.
pub open spec fn kinds_text(message: MessageView) -> Seq<char> {
    if attachments(message.content).len() == 0 {
        "text"@
    } else {
        joined(attachments(message.content), ", "@)
    }
}

/// The text of a message, its blocks one after the other.
pub open spec fn message_text(message: MessageView) -> Seq<char> {
    joined(texts(message.content), " "@)
}

fn attachment_kinds(message: &Message) -> (r: Vec<String>)
    ensures
        views(r@) == attachments(message@.content),
{
    let mut out: Vec<String> = Vec::new();
    let mut i: usize = 0;
    assert(message@.content.take(0) =~= Seq::empty());
    assert(views(out@) =~= Seq::empty());
    while i < message.content.len()
        invariant
            i <= message.content@.len(),
            views(out@) == attachments(message@.content.take(i as int)),
        decreases message.content@.len() - i,
    {
        assert(message@.content.take(i + 1).drop_last() =~= message@.content.take(i as int));
        assert(message@.content.take(i + 1).last() == message.content@[i as int]@);
        let ghost so_far = out@;
        match &message.content[i] {
            MessageContent::Image(image) => {
                out.push(image.mime_type.clone());
                assert(views(out@) =~= views(so_far).push(image.mime_type@));
            },
            MessageContent::Document(document) => {
                out.push(document.mime_type.clone());
                assert(views(out@) =~= views(so_far).push(document.mime_type@));
            },
            _ => {},
        }
        i += 1;
    }
    assert(message@.content.take(message.content@.len() as int) =~= message@.content);
    out
}

pub fn content_kinds(message: &Message) -> (r: String)
    ensures
        r@ == kinds_text(message@),
{
    let kinds: Vec<String> = attachment_kinds(message);
    assert(views(kinds@).len() == kinds@.len());
    if kinds.len() == 0 {
        "text".to_owned()
    } else {
        join(&kinds, ", ")
    }
}

pub fn first_text(message: &Message) -> (r: String)
    ensures
        r@ == message_text(message@),
{
    join(&message.text_blocks(), " ")
}

// ---------------------------------------------------------------------------
// The largest messages
// ---------------------------------------------------------------------------

/// How many bytes the message at `i` takes in a request.
pub open spec fn size_at(sizes: Seq<usize>, i: int) -> usize {
    if 0 <= i < sizes.len() {
        sizes[i]
    } else {
        0
    }
}

/// Whether the message at `a` is named before the one at `b`: the larger first,
/// and of two that are as large the earlier.
pub open spec fn outranks(sizes: Seq<usize>, a: int, b: int) -> bool {
    size_at(sizes, a) > size_at(sizes, b) || (size_at(sizes, a) == size_at(sizes, b) && a < b)
}

/// Whether `order` is the places, below `n`, of the messages that the agent sees,
/// the largest first.
pub open spec fn ranks(
    order: Seq<usize>,
    messages: Seq<MessageView>,
    sizes: Seq<usize>,
    n: int,
) -> bool {
    &&& forall|k: int|
        0 <= k < order.len() ==> (#[trigger] order[k]) < n
            && messages[order[k] as int].metadata.agent_visible
    &&& forall|i: usize|
        i < n && (#[trigger] messages[i as int]).metadata.agent_visible ==> order.contains(i)
    &&& forall|j: int, k: int|
        0 <= j < k < order.len() ==> outranks(
            sizes,
            #[trigger] order[j] as int,
            #[trigger] order[k] as int,
        )
}

/// Whether `order` is the places of the messages that the agent sees, the largest
/// first.
pub open spec fn ranked(order: Seq<usize>, messages: Seq<MessageView>, sizes: Seq<usize>) -> bool {
    ranks(order, messages, sizes, messages.len() as int)
}

/// How many bytes the messages below `n` that the agent sees take together.
pub open spec fn total_size(messages: Seq<MessageView>, sizes: Seq<usize>, n: nat) -> nat
    decreases n,
{
    if n == 0 {
        0
    } else {
        total_size(messages, sizes, (n - 1) as nat) + if messages[n - 1].metadata.agent_visible {
            size_at(sizes, n - 1) as nat
        } else {
            0nat
        }
    }
}

/// How many bytes a request with the conversation takes for its messages.
pub open spec fn request_size(messages: Seq<MessageView>, sizes: Seq<usize>) -> nat {
    total_size(messages, sizes, messages.len())
}

fn size_of(sizes: &Vec<usize>, i: usize) -> (r: usize)
    ensures
        r == size_at(sizes@, i as int),
{
    if i < sizes.len() {
        sizes[i]
    } else {
        0
    }
}

proof fn lemma_total_grows(messages: Seq<MessageView>, sizes: Seq<usize>, a: nat, b: nat)
    requires
        a <= b,
    ensures
        total_size(messages, sizes, a) <= total_size(messages, sizes, b),
    decreases b,
{
    if a < b {
        lemma_total_grows(messages, sizes, a, (b - 1) as nat);
    }
}

/// How many bytes a request with the conversation takes for its messages, or
/// `None` where that is more than can be counted.
pub fn request_bytes(conversation: &Conversation, sizes: &Vec<usize>) -> (r: Option<usize>)
    ensures
        match r {
            Some(total) => total == request_size(conversation@, sizes@),
            None => request_size(conversation@, sizes@) > usize::MAX,
        },
{
    let messages: &Vec<Message> = conversation.messages();
    let ghost all = conversation@;
    let mut total: usize = 0;
    let mut i: usize = 0;
    while i < messages.len()
        invariant
            i <= messages@.len(),
            all == message_views(messages@),
            all == conversation@,
            total == total_size(all, sizes@, i as nat),
        decreases messages@.len() - i,
    {
        assert(all[i as int] == messages@[i as int]@);
        proof {
            lemma_total_grows(all, sizes@, (i + 1) as nat, all.len());
        }
        if messages[i].is_agent_visible() {
            let bytes: usize = size_of(sizes, i);
            if bytes > usize::MAX - total {
                return None;
            }
            total += bytes;
        }
        i += 1;
    }
    Some(total)
}

/// The places of the messages that the agent sees, the largest first.
pub fn agent_visible_by_size(conversation: &Conversation, sizes: &Vec<usize>) -> (r: Vec<usize>)
    ensures
        ranked(r@, conversation@, sizes@),
{
    let messages: &Vec<Message> = conversation.messages();
    let ghost all = conversation@;
    let mut order: Vec<usize> = Vec::new();
    let mut i: usize = 0;
    while i < messages.len()
        invariant
            i <= messages@.len(),
            all == message_views(messages@),
            ranks(order@, all, sizes@, i as int),
        decreases messages@.len() - i,
    {
        assert(all[i as int] == messages@[i as int]@);
        if messages[i].is_agent_visible() {
            let ghost was = order@;
            let bytes: usize = size_of(sizes, i);
            let mut p: usize = 0;
            while p < order.len() && size_of(sizes, order[p]) >= bytes
                invariant
                    p <= order@.len(),
                    order@ == was,
                    bytes == size_at(sizes@, i as int),
                    forall|k: int|
                        0 <= k < p ==> size_at(sizes@, #[trigger] order@[k] as int) >= bytes,
                decreases order@.len() - p,
            {
                p += 1;
            }
            order.insert(p, i);
            proof {
                lemma_ranks_insert(was, all, sizes@, i as int, p as int);
                assert(order@ == was.insert(p as int, i));
            }
        } else {
            proof {
                assert(ranks(order@, all, sizes@, i + 1)) by {
                    assert forall|j: usize|
                        j < i + 1 && (#[trigger] all[j as int]).metadata.agent_visible implies order@.contains(
                        j,
                    ) by {
                        assert(j < i);
                    }
                }
            }
        }
        i += 1;
    }
    assert(all.len() == messages@.len());
    order
}

proof fn lemma_ranks_insert(
    was: Seq<usize>,
    messages: Seq<MessageView>,
    sizes: Seq<usize>,
    i: int,
    p: int,
)
    requires
        0 <= i < messages.len(),
        i <= usize::MAX,
        messages[i].metadata.agent_visible,
        ranks(was, messages, sizes, i),
        0 <= p <= was.len(),
        forall|k: int|
            0 <= k < p ==> size_at(sizes, #[trigger] was[k] as int) >= size_at(sizes, i),
        p < was.len() ==> size_at(sizes, was[p] as int) < size_at(sizes, i),
    ensures
        ranks(was.insert(p, i as usize), messages, sizes, i + 1),
{
    let now = was.insert(p, i as usize);
    assert forall|k: int| 0 <= k < now.len() implies (#[trigger] now[k]) < i + 1
        && messages[now[k] as int].metadata.agent_visible by {
        if k < p {
            assert(now[k] == was[k]);
        } else if k > p {
            assert(now[k] == was[k - 1]);
        }
    }
    assert forall|j: usize|
        j < i + 1 && (#[trigger] messages[j as int]).metadata.agent_visible implies now.contains(
        j,
    ) by {
        if j == i {
            assert(now[p] == j);
        } else {
            assert(was.contains(j));
            let k = was.index_of(j);
            if k < p {
                assert(now[k] == j);
            } else {
                assert(now[k + 1] == j);
            }
        }
    }
    assert forall|j: int, k: int| 0 <= j < k < now.len() implies outranks(
        sizes,
        #[trigger] now[j] as int,
        #[trigger] now[k] as int,
    ) by {
        let a = if j < p { j } else { j - 1 };
        let b = if k < p { k } else { k - 1 };
        if j != p {
            assert(now[j] == was[a]);
            assert(was[a] < i);
        }
        if k != p {
            assert(now[k] == was[b]);
            assert(was[b] < i);
        }
        if j != p && k != p {
            assert(outranks(sizes, was[a] as int, was[b] as int));
        } else if k == p {
            assert(size_at(sizes, was[j] as int) >= size_at(sizes, i));
        } else {
            assert(size_at(sizes, was[p] as int) < size_at(sizes, i));
            if b > p {
                assert(outranks(sizes, was[p] as int, was[b] as int));
            }
        }
    }
}

/// There is one order of the messages by size.
pub proof fn there_is_one_ranking(
    a: Seq<usize>,
    b: Seq<usize>,
    messages: Seq<MessageView>,
    sizes: Seq<usize>,
)
    requires
        ranked(a, messages, sizes),
        ranked(b, messages, sizes),
    ensures
        a == b,
{
    lemma_rankings_agree(a, b, messages, sizes, a.len());
    lemma_rankings_agree(b, a, messages, sizes, b.len());
    assert(a =~= b);
}

proof fn lemma_rankings_agree(
    a: Seq<usize>,
    b: Seq<usize>,
    messages: Seq<MessageView>,
    sizes: Seq<usize>,
    n: nat,
)
    requires
        ranked(a, messages, sizes),
        ranked(b, messages, sizes),
        n <= a.len(),
    ensures
        n <= b.len(),
        forall|k: int| 0 <= k < n ==> #[trigger] a[k] == b[k],
    decreases n,
{
    if n > 0 {
        let k = n - 1;
        lemma_rankings_agree(a, b, messages, sizes, k as nat);
        // The place at `k` in `a` is somewhere in `b`, and not before `k`.
        assert(a[k] < messages.len() && messages[a[k] as int].metadata.agent_visible);
        assert(b.contains(a[k]));
        let p = b.index_of(a[k]);
        if p < k {
            assert(a[p] == b[p]);
            assert(outranks(sizes, a[p] as int, a[k] as int));
        }
        assert(p >= k);
        // The place at `k` in `b` is somewhere in `a`, and not before `k` either.
        assert(b[k] < messages.len() && messages[b[k] as int].metadata.agent_visible);
        assert(a.contains(b[k]));
        let q = a.index_of(b[k]);
        if q < k {
            assert(a[q] == b[q]);
            assert(outranks(sizes, b[q] as int, b[k] as int));
        }
        if p > k {
            assert(outranks(sizes, b[k] as int, b[p] as int));
            if q > k {
                assert(outranks(sizes, a[k] as int, a[q] as int));
            }
        }
        assert(a[k] == b[k]);
    }
}

// ---------------------------------------------------------------------------
// What the model is told
// ---------------------------------------------------------------------------

/// A culprit: its size, what it is made of, and how its text starts.
pub open spec fn offender_line(message: MessageView, bytes: usize) -> Seq<char> {
    "\n- "@ + size_text(bytes as nat) + " ("@ + kinds_text(message) + ") starting: \""@ + prefix(
        message_text(message),
        QUOTED_CHARS as nat,
    ) + "\""@
}

/// Those of the messages at `order` that are worth naming.
pub open spec fn offenders_text(
    order: Seq<usize>,
    messages: Seq<MessageView>,
    sizes: Seq<usize>,
) -> Seq<char>
    decreases order.len(),
{
    if order.len() == 0 {
        Seq::empty()
    } else {
        let bytes = size_at(sizes, order.last() as int);
        offenders_text(order.drop_last(), messages, sizes) + if bytes >= REPORTED_OFFENDER_BYTES {
            offender_line(messages[order.last() as int], bytes)
        } else {
            Seq::empty()
        }
    }
}

/// The first few of an order.
pub open spec fn foremost(order: Seq<usize>) -> Seq<usize> {
    if order.len() <= REPORTED_OFFENDERS {
        order
    } else {
        order.take(REPORTED_OFFENDERS as int)
    }
}

pub open spec fn limit_text(limit_bytes: Option<usize>) -> Seq<char> {
    match limit_bytes {
        Some(limit) => "The provider accepts about "@ + size_text(limit as nat) + " per request"@,
        None => "The provider rejects the request on its size"@,
    }
}

/// What to shrink, in the model's eyes.
pub open spec fn oversized_text(
    messages: Seq<MessageView>,
    sizes: Seq<usize>,
    order: Seq<usize>,
    provider_message: Seq<char>,
    limit_bytes: Option<usize>,
) -> Seq<char> {
    "Your last request was rejected as too large by the provider: \""@ + provider_message
        + "\". "@ + limit_text(limit_bytes) + "; that request carried about "@ + size_text(
        request_size(messages, sizes),
    )
        + ". This is a byte limit, not the model's token window, so nothing needs summarizing — the content itself has to get smaller."@
        + offenders_text(foremost(order), messages, sizes)
        + " \n\nFix it yourself and continue: re-read an image with a smaller `crop`, or downscale it first (for example `magick input.jpg -resize 1568x1568 out.jpg`) and read the smaller file; summarize or truncate oversized command output; or proceed without the content if it is not needed. Do not resend the identical request."@
}

fn write_offenders(conversation: &Conversation, sizes: &Vec<usize>, order: &Vec<usize>) -> (r:
    String)
    requires
        ranked(order@, conversation@, sizes@),
    ensures
        r@ == offenders_text(foremost(order@), conversation@, sizes@),
{
    let messages: &Vec<Message> = conversation.messages();
    let ghost all = conversation@;
    let mut offenders: String = String::new();
    let mut k: usize = 0;
    assert(order@.take(0) =~= Seq::empty());
    assert(offenders@ =~= Seq::empty());
    while k < order.len() && k < REPORTED_OFFENDERS
        invariant
            k <= order@.len(),
            k <= REPORTED_OFFENDERS,
            all == message_views(messages@),
            ranked(order@, all, sizes@),
            offenders@ == offenders_text(order@.take(k as int), all, sizes@),
        decreases order@.len() - k,
    {
        assert(order@.take(k + 1).drop_last() =~= order@.take(k as int));
        assert(order@.take(k + 1).last() == order@[k as int]);
        let i: usize = order[k];
        assert(i < all.len());
        assert(all[i as int] == messages@[i as int]@);
        let bytes: usize = size_of(sizes, i);
        if bytes >= REPORTED_OFFENDER_BYTES {
            let ghost so_far = offenders@;
            let size: String = human_bytes(bytes);
            let kinds: String = content_kinds(&messages[i]);
            let text: String = first_text(&messages[i]);
            let mut line: String = "\n- ".to_owned();
            line.append(size.as_str());
            line.append(" (");
            line.append(kinds.as_str());
            line.append(") starting: \"");
            line.append(take_chars(text.as_str(), QUOTED_CHARS));
            line.append("\"");
            offenders.append(line.as_str());
        } else {
            assert(offenders@ + Seq::<char>::empty() =~= offenders@);
        }
        k += 1;
    }
    assert(order@.take(k as int) =~= foremost(order@));
    offenders
}

/// Describes what to shrink, for the model's eyes only.
pub fn oversized_request_message(
    conversation: &Conversation,
    sizes: &Vec<usize>,
    provider_message: &str,
    limit_bytes: Option<usize>,
) -> (r: String)
    requires
        request_size(conversation@, sizes@) <= usize::MAX,
    ensures
        exists|order: Seq<usize>| #[trigger]
            ranked(order, conversation@, sizes@) && r@ == oversized_text(
                conversation@,
                sizes@,
                order,
                provider_message@,
                limit_bytes,
            ),
{
    let order: Vec<usize> = agent_visible_by_size(conversation, sizes);
    let total: usize = match request_bytes(conversation, sizes) {
        Some(total) => total,
        None => 0,
    };
    let limit: String = match limit_bytes {
        Some(limit) => {
            let mut text: String = "The provider accepts about ".to_owned();
            let size: String = human_bytes(limit);
            text.append(size.as_str());
            text.append(" per request");
            text
        },
        None => "The provider rejects the request on its size".to_owned(),
    };
    let offenders: String = write_offenders(conversation, sizes, &order);
    let size: String = human_bytes(total);
    let mut text: String =
        "Your last request was rejected as too large by the provider: \"".to_owned();
    text.append(provider_message);
    text.append("\". ");
    text.append(limit.as_str());
    text.append("; that request carried about ");
    text.append(size.as_str());
    text.append(
        ". This is a byte limit, not the model's token window, so nothing needs summarizing — the content itself has to get smaller.",
    );
    text.append(offenders.as_str());
    text.append(
        " \n\nFix it yourself and continue: re-read an image with a smaller `crop`, or downscale it first (for example `magick input.jpg -resize 1568x1568 out.jpg`) and read the smaller file; summarize or truncate oversized command output; or proceed without the content if it is not needed. Do not resend the identical request.",
    );
    assert(text@ == oversized_text(
        conversation@,
        sizes@,
        order@,
        provider_message@,
        limit_bytes,
    ));
    text
}

// ---------------------------------------------------------------------------
// What holds of it all
// ---------------------------------------------------------------------------

proof fn lemma_total_of_the_front(
    messages: Seq<MessageView>,
    sizes: Seq<usize>,
    message: MessageView,
    bytes: usize,
    n: nat,
)
    requires
        sizes.len() == messages.len(),
        n <= messages.len(),
    ensures
        total_size(messages.push(message), sizes.push(bytes), n) == total_size(messages, sizes, n),
    decreases n,
{
    if n > 0 {
        lemma_total_of_the_front(messages, sizes, message, bytes, (n - 1) as nat);
    }
}

/// One message more makes a request larger by all of its bytes if the agent sees
/// it, however large the others are, and by nothing if not. Without a message a
/// request takes nothing.
pub proof fn every_visible_message_counts_in_full(
    messages: Seq<MessageView>,
    sizes: Seq<usize>,
    message: MessageView,
    bytes: usize,
)
    requires
        sizes.len() == messages.len(),
    ensures
        request_size(Seq::empty(), Seq::empty()) == 0,
        message.metadata.agent_visible ==> request_size(messages.push(message), sizes.push(bytes))
            == request_size(messages, sizes) + bytes,
        !message.metadata.agent_visible ==> request_size(messages.push(message), sizes.push(bytes))
            == request_size(messages, sizes),
{
    let n = messages.len();
    lemma_total_of_the_front(messages, sizes, message, bytes, n);
    assert(messages.push(message)[n as int] == message);
    assert(sizes.push(bytes)[n as int] == bytes);
}

/// The model is told what the provider said, what it accepts where that is known,
/// and how much the request carried: all of it, not only what is named.
pub proof fn the_rejection_is_passed_on(
    messages: Seq<MessageView>,
    sizes: Seq<usize>,
    order: Seq<usize>,
    provider_message: Seq<char>,
    limit_bytes: Option<usize>,
)
    ensures
        occurs(
            oversized_text(messages, sizes, order, provider_message, limit_bytes),
            provider_message + "\". "@,
        ),
        limit_bytes is Some ==> occurs(
            oversized_text(messages, sizes, order, provider_message, limit_bytes),
            "The provider accepts about "@ + size_text(limit_bytes->0 as nat)
                + " per request"@,
        ),
        occurs(
            oversized_text(messages, sizes, order, provider_message, limit_bytes),
            "; that request carried about "@ + size_text(request_size(messages, sizes))
                + ". This is a byte limit, not the model's token window, so nothing needs summarizing — the content itself has to get smaller."@,
        ),
        occurs(
            oversized_text(messages, sizes, order, provider_message, limit_bytes),
            offenders_text(foremost(order), messages, sizes),
        ),
{
    let head = "Your last request was rejected as too large by the provider: \""@;
    let limit = limit_text(limit_bytes);
    let about = "; that request carried about "@;
    let size = size_text(request_size(messages, sizes));
    let not_tokens =
        ". This is a byte limit, not the model's token window, so nothing needs summarizing — the content itself has to get smaller."@;
    let offenders = offenders_text(foremost(order), messages, sizes);
    let advice =
        " \n\nFix it yourself and continue: re-read an image with a smaller `crop`, or downscale it first (for example `magick input.jpg -resize 1568x1568 out.jpg`) and read the smaller file; summarize or truncate oversized command output; or proceed without the content if it is not needed. Do not resend the identical request."@;
    lemma_parts_of_the_message(
        head,
        provider_message,
        limit,
        about,
        size,
        not_tokens,
        offenders,
        advice,
    );
}

proof fn lemma_parts_of_the_message(
    head: Seq<char>,
    said: Seq<char>,
    limit: Seq<char>,
    about: Seq<char>,
    size: Seq<char>,
    not_tokens: Seq<char>,
    offenders: Seq<char>,
    advice: Seq<char>,
)
    ensures
        ({
            let whole = head + said + "\". "@ + limit + about + size + not_tokens + offenders
                + advice;
            &&& occurs(whole, said + "\". "@)
            &&& occurs(whole, limit)
            &&& occurs(whole, about + size + not_tokens)
            &&& occurs(whole, offenders)
        }),
{
    let one = head + said + "\". "@;
    let two = one + limit;
    let three = two + about + size + not_tokens;
    let four = three + offenders;
    two_parts_are_one(head, said, "\". "@);
    what_comes_last_occurs(head, said + "\". "@);
    what_comes_last_occurs(one, limit);
    three_parts_are_one(two, about, size, not_tokens);
    what_comes_last_occurs(two, about + size + not_tokens);
    what_comes_last_occurs(three, offenders);
    what_occurs_stays(one, limit, said + "\". "@);
    let needles = seq![said + "\". "@, limit];
    assert forall|k: int| 0 <= k < needles.len() implies occurs(three, #[trigger] needles[k]) by {
        assert(occurs(two, needles[k]));
        what_occurs_stays(two, about, needles[k]);
        what_occurs_stays(two + about, size, needles[k]);
        what_occurs_stays(two + about + size, not_tokens, needles[k]);
    }
    assert(needles[0] == said + "\". "@ && needles[1] == limit);
    what_occurs_stays(three, offenders, said + "\". "@);
    what_occurs_stays(three, offenders, limit);
    what_occurs_stays(three, offenders, about + size + not_tokens);
    what_occurs_stays(four, advice, said + "\". "@);
    what_occurs_stays(four, advice, limit);
    what_occurs_stays(four, advice, about + size + not_tokens);
    what_occurs_stays(four, advice, offenders);
}

/// A message more that the agent sees raises the size that the model is told by
/// all of its bytes, wherever it stands among the others by size.
pub proof fn the_size_told_counts_every_message(
    messages: Seq<MessageView>,
    sizes: Seq<usize>,
    message: MessageView,
    bytes: usize,
    order: Seq<usize>,
    provider_message: Seq<char>,
    limit_bytes: Option<usize>,
)
    requires
        sizes.len() == messages.len(),
        message.metadata.agent_visible,
    ensures
        occurs(
            oversized_text(
                messages.push(message),
                sizes.push(bytes),
                order,
                provider_message,
                limit_bytes,
            ),
            "; that request carried about "@ + size_text(request_size(messages, sizes) + bytes as nat)
                + ". This is a byte limit, not the model's token window, so nothing needs summarizing — the content itself has to get smaller."@,
        ),
{
    every_visible_message_counts_in_full(messages, sizes, message, bytes);
    the_rejection_is_passed_on(
        messages.push(message),
        sizes.push(bytes),
        order,
        provider_message,
        limit_bytes,
    );
}

/// Of the messages gone through, each of 64 KiB or more is named, with its size,
/// what it is made of and the first 160 characters of its text; the others are
/// not.
pub proof fn each_large_message_is_named(
    order: Seq<usize>,
    i: usize,
    messages: Seq<MessageView>,
    sizes: Seq<usize>,
)
    ensures
        offenders_text(Seq::empty(), messages, sizes) == Seq::<char>::empty(),
        size_at(sizes, i as int) < 65_536 ==> offenders_text(order.push(i), messages, sizes)
            == offenders_text(order, messages, sizes),
        size_at(sizes, i as int) >= 65_536 ==> offenders_text(order.push(i), messages, sizes)
            == offenders_text(order, messages, sizes) + ("\n- "@ + size_text(
            size_at(sizes, i as int) as nat,
        ) + " ("@ + kinds_text(messages[i as int]) + ") starting: \""@ + (if message_text(
            messages[i as int],
        ).len() <= 160 {
            message_text(messages[i as int])
        } else {
            message_text(messages[i as int]).take(160)
        }) + "\""@),
{
    assert(order.push(i).drop_last() =~= order);
    assert(offenders_text(order, messages, sizes) + Seq::<char>::empty() =~= offenders_text(
        order,
        messages,
        sizes,
    ));
}

/// No more than three messages are gone through, and they are the largest: none
/// that is left out takes more bytes than one that is not.
pub proof fn the_largest_are_gone_through(
    order: Seq<usize>,
    messages: Seq<MessageView>,
    sizes: Seq<usize>,
    k: int,
    i: usize,
)
    requires
        ranked(order, messages, sizes),
        0 <= k < foremost(order).len(),
        i < messages.len(),
        messages[i as int].metadata.agent_visible,
        !foremost(order).contains(i),
    ensures
        foremost(order).len() == 3,
        size_at(sizes, foremost(order)[k] as int) >= size_at(sizes, i as int),
        messages[foremost(order)[k] as int].metadata.agent_visible,
{
    assert(order.contains(i));
    let p = order.index_of(i);
    assert(order[p] == i);
    if p < foremost(order).len() {
        assert(foremost(order)[p] == i);
        assert(foremost(order).contains(i));
    }
    assert(k < p);
    assert(foremost(order)[k] == order[k]);
    assert(outranks(sizes, order[k] as int, order[p] as int));
}

/// An attachment more is listed last by its kind; a block of another kind is not
/// listed.
pub proof fn every_attachment_is_listed(blocks: Seq<ContentView>, block: ContentView)
    ensures
        attachments(Seq::empty()) == Seq::<Seq<char>>::empty(),
        match block {
            ContentView::Image { mime_type, .. } => attachments(blocks.push(block)) == attachments(
                blocks,
            ).push(mime_type),
            ContentView::Document { mime_type, .. } => attachments(blocks.push(block))
                == attachments(blocks).push(mime_type),
            _ => attachments(blocks.push(block)) == attachments(blocks),
        },
{
    assert(blocks.push(block).drop_last() =~= blocks);
}

/// What a message is made of names each of its attachments, and is just text
/// exactly where there is none.
pub proof fn the_kinds_name_every_attachment(message: MessageView, i: int)
    requires
        0 <= i < attachments(message.content).len(),
    ensures
        occurs(kinds_text(message), attachments(message.content)[i]),
{
    a_join_holds_every_part(attachments(message.content), ", "@, i);
}

/// What a message is made of is just text where nothing is attached.
pub proof fn without_attachments_there_is_text(message: MessageView)
    requires
        forall|i: int|
            0 <= i < message.content.len() ==> !(#[trigger] message.content[i] is Image) && !(
            message.content[i] is Document),
    ensures
        kinds_text(message) == "text"@,
{
    lemma_nothing_attached(message.content);
}

proof fn lemma_nothing_attached(blocks: Seq<ContentView>)
    requires
        forall|i: int|
            0 <= i < blocks.len() ==> !(#[trigger] blocks[i] is Image) && !(
            blocks[i] is Document),
    ensures
        attachments(blocks).len() == 0,
    decreases blocks.len(),
{
    if blocks.len() > 0 {
        let front = blocks.drop_last();
        assert forall|i: int| 0 <= i < front.len() implies !(#[trigger] front[i] is Image) && !(
        front[i] is Document) by {
            assert(front[i] == blocks[i]);
        }
        lemma_nothing_attached(front);
        assert(!(blocks[blocks.len() - 1] is Image));
    }
}

/// Rounding moves a number by half a unit at most, and from the middle between
/// two multiples to the even one.
pub proof fn rounding_goes_to_the_nearest(n: nat, unit: nat)
    requires
        unit > 0,
    ensures
        2 * (nearest(n, unit) * unit - n) <= unit,
        2 * (n - nearest(n, unit) * unit) <= unit,
        2 * (nearest(n, unit) * unit - n) == unit || 2 * (n - nearest(n, unit) * unit) == unit
            ==> nearest(n, unit) % 2 == 0,
{
    let q = n / unit;
    let r = n % unit;
    assert(n == q * unit + r && 0 <= r < unit) by (nonlinear_arith)
        requires
            unit > 0,
            q == n / unit,
            r == n % unit,
    ;
    assert((q + 1) * unit == q * unit + unit) by (nonlinear_arith);
}

/// A number of bytes is told to the byte under a KiB, to half a KiB under a MiB,
/// and to a twentieth of a MiB from there on, as far as doubles tell numbers
/// apart. The number that comes back is the one that is written.
pub proof fn a_size_is_told_closely(n: nat) -> (told: nat)
    requires
        n < 0x20_0000_0000_0000,
    ensures
        n < 1_024 ==> told == n && size_text(n) == decimal(told) + " bytes"@,
        1_024 <= n < 1_048_576 ==> size_text(n) == decimal(told) + " KiB"@ && -512 <= told * 1_024
            - n <= 512,
        n >= 1_048_576 ==> size_text(n) == decimal(told / 10) + "."@ + decimal(told % 10)
            + " MiB"@ && -524_288 <= told * 1_048_576 - n * 10 <= 524_288,
{
    assert(double_unit(n) == 1);
    assert(nearest(n, 1) == n);
    assert(nearest_double(n) == n);
    if n < 1_024 {
        n
    } else if n < 1_048_576 {
        rounding_goes_to_the_nearest(n, 1_024);
        nearest(n, 1_024)
    } else {
        rounding_goes_to_the_nearest(n * 10, 1_048_576);
        nearest(n * 10, 1_048_576)
    }
}

/// A larger number is told as the double next to it: the doubles around it are so
/// far apart that 53 bits tell them apart, no further.
pub proof fn a_double_is_next_to_its_number(n: nat)
    requires
        n >= 0x20_0000_0000_0000,
    ensures
        double_unit(n) * 0x10_0000_0000_0000 <= n < double_unit(n) * 0x20_0000_0000_0000,
        double_unit(n) == 2 * double_unit(n / 2),
        2 * (nearest_double(n) - n) <= double_unit(n),
        2 * (n - nearest_double(n)) <= double_unit(n),
{
    lemma_double_unit(n);
    rounding_goes_to_the_nearest(n, double_unit(n));
}

proof fn lemma_double_unit(n: nat)
    ensures
        double_unit(n) >= 1,
        n < double_unit(n) * 0x20_0000_0000_0000,
        n >= 0x10_0000_0000_0000 ==> double_unit(n) * 0x10_0000_0000_0000 <= n,
    decreases n,
{
    if n >= 0x20_0000_0000_0000 {
        lemma_double_unit(n / 2);
    }
}

/// Of two messages in the order, the one named first takes more bytes, or as many
/// and stands first in the conversation. A message of which no size is given takes
/// none.
pub proof fn the_larger_comes_first(
    order: Seq<usize>,
    messages: Seq<MessageView>,
    sizes: Seq<usize>,
    j: int,
    k: int,
)
    requires
        ranked(order, messages, sizes),
        0 <= j < k < order.len(),
    ensures
        order[k] < sizes.len() ==> order[j] < sizes.len() && (sizes[order[j] as int]
            > sizes[order[k] as int] || (sizes[order[j] as int] == sizes[order[k] as int]
            && order[j] < order[k])) || (order[j] >= sizes.len() && sizes[order[k] as int] == 0
            && order[j] < order[k]),
        order[k] >= sizes.len() && order[j] >= sizes.len() ==> order[j] < order[k],
        order[k] >= sizes.len() && order[j] < sizes.len() ==> sizes[order[j] as int] > 0
            || order[j] < order[k],
{
    assert(outranks(sizes, order[j] as int, order[k] as int));
}

/// The text of a message is that of all its text blocks: one more is put at the
/// end, after a space where something stands before it.
pub proof fn every_text_block_is_quoted(message: MessageView, text: Seq<char>, more: MessageView)
    requires
        more.content == message.content.push(ContentView::Text(text)),
    ensures
        texts(message.content).len() == 0 ==> message_text(more) == text,
        texts(message.content).len() > 0 ==> message_text(more) == message_text(message) + " "@
            + text,
{
    every_text_block_counts(message.content, ContentView::Text(text));
    let parts = texts(message.content);
    assert(parts.push(text).drop_last() =~= parts);
    if parts.len() == 0 {
        assert(parts.push(text)[0] == text);
    }
}

/// The kinds of a message's attachments are told one after the other, each after
/// a comma but the first.
pub proof fn every_kind_is_told(
    message: MessageView,
    data: Seq<char>,
    kind: Seq<char>,
    more: MessageView,
)
    requires
        more.content == message.content.push(ContentView::Image { data, mime_type: kind })
            || more.content == message.content.push(
            ContentView::Document { data, mime_type: kind },
        ),
    ensures
        attachments(message.content).len() == 0 ==> kinds_text(more) == kind,
        attachments(message.content).len() > 0 ==> kinds_text(more) == kinds_text(message) + ", "@
            + kind,
{
    every_attachment_is_listed(message.content, more.content.last());
    let parts = attachments(message.content);
    assert(parts.push(kind).drop_last() =~= parts);
    if parts.len() == 0 {
        assert(parts.push(kind)[0] == kind);
    }
}

/// A number of bytes too large for a double to hold is told in MiB, to a
/// twentieth, as the double next to it.
pub proof fn a_huge_size_is_told_as_a_double(n: nat) -> (told: nat)
    requires
        n >= 0x20_0000_0000_0000,
    ensures
        size_text(n) == decimal(told / 10) + "."@ + decimal(told % 10) + " MiB"@,
        -524_288 <= told * 1_048_576 - nearest_double(n) * 10 <= 524_288,
{
    a_double_is_next_to_its_number(n);
    rounding_goes_to_the_nearest(nearest_double(n) * 10, 1_048_576);
    assert(double_unit(n) <= n) by {
        assert(double_unit(n) <= double_unit(n) * 0x10_0000_0000_0000);
    }
    assert(nearest_double(n) >= 1_048_576);
    nearest(nearest_double(n) * 10, 1_048_576)
}

} // verus!
