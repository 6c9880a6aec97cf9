use goose::conversation::{
    Conversation, DocumentContent, ImageContent, Message, MessageContent,
};
use goose::request_size::{
    agent_visible_by_size, content_kinds, first_text, human_bytes, oversized_request_message,
    request_bytes, REPORTED_OFFENDER_BYTES,
};

/// The same size, worked out in floating point.
fn in_floating_point(bytes: usize) -> String {
    const MIB: f64 = 1024.0 * 1024.0;
    const KIB: f64 = 1024.0;
    let bytes = bytes as f64;
    if bytes >= MIB {
        format!("{:.1} MiB", bytes / MIB)
    } else if bytes >= KIB {
        format!("{:.0} KiB", bytes / KIB)
    } else {
        format!("{bytes:.0} bytes")
    }
}

#[test]
fn sizes_are_rounded_as_floating_point_would() {
    for n in 0..5_000usize {
        assert_eq!(human_bytes(n), in_floating_point(n));
    }
    let mut n: usize = 1;
    for _ in 0..63 {
        for around in [n - 1, n, n + 1, n + n / 2, n + n / 4, n + n / 20 + 1, n / 3 * 2] {
            assert_eq!(human_bytes(around), in_floating_point(around), "{around}");
        }
        n *= 2;
    }
    // Tenths that fall halfway between two, and counts beyond what a double holds.
    for tenths in 0..2_000usize {
        let halfway = 1_048_576 + tenths * 104_857 + 52_429;
        assert_eq!(human_bytes(halfway), in_floating_point(halfway));
        let tie = 1_048_576 + tenths * 262_144;
        assert_eq!(human_bytes(tie), in_floating_point(tie));
        let kib = 1_024 * tenths + 512;
        assert_eq!(human_bytes(kib), in_floating_point(kib));
        let large = (1usize << 53) + tenths * 3 + 1;
        assert_eq!(human_bytes(large), in_floating_point(large));
    }
    for near in [usize::MAX, usize::MAX - 1_024, usize::MAX - 1_025, usize::MAX / 3] {
        assert_eq!(human_bytes(near), in_floating_point(near));
    }
}

#[test]
fn sizes_read_well() {
    assert_eq!(human_bytes(0), "0 bytes");
    assert_eq!(human_bytes(1_023), "1023 bytes");
    assert_eq!(human_bytes(1_536), "2 KiB");
    assert_eq!(human_bytes(2_560), "2 KiB");
    assert_eq!(human_bytes(1_048_575), "1024 KiB");
    assert_eq!(human_bytes(1_048_576), "1.0 MiB");
    assert_eq!(human_bytes(5_242_880), "5.0 MiB");
    assert_eq!(human_bytes(1_310_720), "1.2 MiB");
}

fn image(mime_type: &str) -> MessageContent {
    MessageContent::Image(ImageContent {
        data: "aGk=".to_string(),
        mime_type: mime_type.to_string(),
    })
}

fn document(mime_type: &str) -> MessageContent {
    MessageContent::Document(DocumentContent {
        data: "aGk=".to_string(),
        mime_type: mime_type.to_string(),
    })
}

#[test]
fn a_message_is_described_by_its_attachments() {
    let plain = Message::user().with_text("just").with_text("words");
    assert_eq!(content_kinds(&plain), "text");
    assert_eq!(first_text(&plain), "just words");

    let mixed = Message::user()
        .with_content(image("image/png"))
        .with_text("look")
        .with_content(document("application/pdf"));
    assert_eq!(content_kinds(&mixed), "image/png, application/pdf");
    assert_eq!(first_text(&mixed), "look");
}

#[test]
fn the_largest_come_first_and_the_earlier_of_two_as_large() {
    let conversation = Conversation::new_unvalidated(vec![
        Message::user().with_text("a"),
        Message::user().with_text("b"),
        Message::user().with_text("c").with_visibility(true, false),
        Message::user().with_text("d"),
        Message::user().with_text("e"),
    ]);

    assert_eq!(
        agent_visible_by_size(&conversation, &vec![5, 9, 100, 9]),
        vec![1, 3, 0, 4]
    );
    assert_eq!(
        agent_visible_by_size(&conversation, &vec![]),
        vec![0, 1, 3, 4]
    );
    assert!(agent_visible_by_size(&Conversation::empty(), &vec![7]).is_empty());
}

#[test]
fn the_model_is_told_what_to_shrink() {
    let conversation = Conversation::new_unvalidated(vec![
        Message::user().with_text("small"),
        Message::user()
            .with_content(image("image/png"))
            .with_text(&"x".repeat(200)),
        Message::user().with_text("hidden").with_visibility(true, false),
        Message::user().with_text("large"),
    ]);
    let sizes = vec![10, 5 * 1_048_576, 9 * 1_048_576, REPORTED_OFFENDER_BYTES];

    let text = oversized_request_message(&conversation, &sizes, "too big", Some(4 * 1_048_576));

    let quoted = "x".repeat(160);
    assert_eq!(
        text,
        format!(
            "Your last request was rejected as too large by the provider: \"too big\". \
             The provider accepts about 4.0 MiB per request; that request carried about 5.1 MiB. This is a byte limit, not the model's token \
             window, so nothing needs summarizing — the content itself has to get smaller.\
             \n- 5.0 MiB (image/png) starting: \"{quoted}\"\
             \n- 64 KiB (text) starting: \"large\" \
             \n\nFix it yourself and continue: re-read an image with a smaller `crop`, or downscale \
             it first (for example `magick input.jpg -resize 1568x1568 out.jpg`) and read the smaller \
             file; summarize or truncate oversized command output; or proceed without the content if \
             it is not needed. Do not resend the identical request."
        )
    );
}

#[test]
fn no_more_than_three_culprits_are_named() {
    let conversation = Conversation::new_unvalidated(
        (0..5)
            .map(|i| Message::user().with_text(&format!("message {i}")))
            .collect(),
    );
    let sizes = vec![70_000, 90_000, 80_000, 100_000, 65_535];

    let text = oversized_request_message(&conversation, &sizes, "", None);

    assert!(text.contains("The provider rejects the request on its size; "));
    let named: Vec<usize> = ["message 3", "message 1", "message 2"]
        .iter()
        .map(|name| text.find(name).unwrap())
        .collect();
    assert!(named[0] < named[1] && named[1] < named[2]);
    assert!(!text.contains("message 0") && !text.contains("message 4"));
}

#[test]
fn only_what_the_agent_sees_is_counted() {
    let conversation = Conversation::new_unvalidated(vec![
        Message::user().with_text("a"),
        Message::user().with_text("b").with_visibility(true, false),
        Message::user().with_text("c"),
    ]);
    assert_eq!(request_bytes(&conversation, &vec![1, 10, 100]), Some(101));
    assert_eq!(request_bytes(&conversation, &vec![1, usize::MAX]), Some(1));
    assert_eq!(
        request_bytes(&conversation, &vec![1, 0, usize::MAX - 1]),
        Some(usize::MAX)
    );
    assert_eq!(request_bytes(&conversation, &vec![1, 0, usize::MAX]), None);
}
