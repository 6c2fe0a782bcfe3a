use pumas::buffer::{assemble, Buffer, REPAIR_WINDOW};

const DEFECT: &str = "<key>idle_ratio</key><real>0.5</real>";

fn body(n: usize) -> Vec<String> {
    let mut lines: Vec<String> = Vec::new();
    for i in 0..n {
        lines.push(format!("<line>{}</line>", i));
    }
    lines.push("</plist>".to_string());
    lines
}

fn feed_all(buffer: &mut Buffer, lines: &[String]) -> String {
    let last = lines.len() - 1;
    for line in &lines[..last] {
        buffer.append_line(line.clone());
    }
    buffer.append_last_line(lines[last].clone());
    buffer.finalize()
}

#[test]
fn new_buffer_is_empty() {
    let mut buffer = Buffer::new();
    assert_eq!(buffer.len(), 0);
    assert_eq!(buffer.finalize(), "");
}

#[test]
fn lines_are_joined_by_newlines() {
    let mut buffer = Buffer::new();
    buffer.append_line("a".to_string());
    buffer.append_line("".to_string());
    buffer.append_line("b c".to_string());
    buffer.append_last_line("</plist>".to_string());
    assert_eq!(buffer.len(), 4);
    assert_eq!(buffer.finalize(), "a\n\nb c\n</plist>");
}

#[test]
fn single_line_document() {
    let mut buffer = Buffer::new();
    buffer.append_last_line("</plist>".to_string());
    assert_eq!(buffer.finalize(), "</plist>");
}

#[test]
fn stray_nul_is_stripped_from_first_line() {
    let mut buffer = Buffer::new();
    buffer.append_line("\0<?xml version=\"1.0\"?>".to_string());
    buffer.append_last_line("</plist>".to_string());
    assert_eq!(buffer.finalize(), "<?xml version=\"1.0\"?>\n</plist>");
}

#[test]
fn only_one_nul_is_stripped() {
    let mut buffer = Buffer::new();
    buffer.append_line("\0\0x".to_string());
    buffer.append_last_line("</plist>".to_string());
    assert_eq!(buffer.finalize(), "\0x\n</plist>");
}

#[test]
fn nul_on_later_lines_is_kept() {
    let mut buffer = Buffer::new();
    buffer.append_line("first".to_string());
    buffer.append_line("\0second".to_string());
    buffer.append_last_line("</plist>".to_string());
    assert_eq!(buffer.finalize(), "first\n\0second\n</plist>");
}

#[test]
fn nul_alone_on_first_line_leaves_an_empty_line() {
    let mut buffer = Buffer::new();
    buffer.append_line("\0".to_string());
    buffer.append_last_line("end".to_string());
    assert_eq!(buffer.finalize(), "\nend");
}

#[test]
fn defective_line_is_removed_at_every_place_of_the_window() {
    let clean = body(30);
    let expected = clean.join("\n");
    for back in 0..REPAIR_WINDOW - 1 {
        let mut dirty = clean.clone();
        let at = clean.len() - 1 - back;
        dirty.insert(at, DEFECT.to_string());
        let mut buffer = Buffer::new();
        assert_eq!(feed_all(&mut buffer, &dirty), expected, "back = {}", back);
    }
}

#[test]
fn defective_line_outside_the_window_stays() {
    let clean = body(30);
    let mut dirty = clean.clone();
    let at = clean.len() - REPAIR_WINDOW + 1;
    dirty.insert(at - 1, DEFECT.to_string());
    let mut buffer = Buffer::new();
    assert_eq!(dirty.len() - (at - 1), REPAIR_WINDOW + 1);
    assert_eq!(feed_all(&mut buffer, &dirty), dirty.join("\n"));
}

#[test]
fn defective_line_at_the_edge_of_the_window_is_removed() {
    let clean = body(30);
    let mut dirty = clean.clone();
    let at = clean.len() + 1 - REPAIR_WINDOW;
    dirty.insert(at, DEFECT.to_string());
    assert_eq!(dirty.len() - at, REPAIR_WINDOW);
    let mut buffer = Buffer::new();
    assert_eq!(feed_all(&mut buffer, &dirty), clean.join("\n"));
}

#[test]
fn only_the_most_recent_defective_line_is_removed() {
    let mut buffer = Buffer::new();
    buffer.append_line("a".to_string());
    buffer.append_line("<key>idle_ratio</key>1".to_string());
    buffer.append_line("b".to_string());
    buffer.append_line("<key>idle_ratio</key>2".to_string());
    buffer.append_line("c".to_string());
    buffer.append_last_line("</plist>".to_string());
    assert_eq!(buffer.finalize(), "a\n<key>idle_ratio</key>1\nb\nc\n</plist>");
}

#[test]
fn marker_must_stand_at_the_start_of_the_line() {
    let mut buffer = Buffer::new();
    buffer.append_line(" <key>idle_ratio</key>".to_string());
    buffer.append_line("<key>idle_ratio</key".to_string());
    buffer.append_line("<KEY>idle_ratio</KEY>".to_string());
    buffer.append_last_line("</plist>".to_string());
    assert_eq!(
        buffer.finalize(),
        " <key>idle_ratio</key>\n<key>idle_ratio</key\n<KEY>idle_ratio</KEY>\n</plist>"
    );
}

#[test]
fn bare_marker_line_is_removed() {
    let mut buffer = Buffer::new();
    buffer.append_line("x".to_string());
    buffer.append_line("<key>idle_ratio</key>".to_string());
    buffer.append_last_line("</plist>".to_string());
    assert_eq!(buffer.finalize(), "x\n</plist>");
}

#[test]
fn stray_nul_and_defective_line_together() {
    let clean = body(12);
    let mut dirty = clean.clone();
    dirty[0] = format!("\0{}", clean[0]);
    dirty.insert(clean.len() - 5, DEFECT.to_string());
    let mut buffer = Buffer::new();
    assert_eq!(feed_all(&mut buffer, &dirty), clean.join("\n"));
}

#[test]
fn buffer_is_empty_after_finalize_and_reusable() {
    let mut buffer = Buffer::new();
    let first = body(20);
    let mut dirty = first.clone();
    dirty.insert(first.len() - 5, DEFECT.to_string());
    assert_eq!(feed_all(&mut buffer, &dirty), first.join("\n"));
    assert_eq!(buffer.len(), 0);

    let second = vec!["\0alpha".to_string(), "beta".to_string(), "</plist>".to_string()];
    let mut fresh = Buffer::new();
    let reused = feed_all(&mut buffer, &second);
    assert_eq!(reused, feed_all(&mut fresh, &second));
    assert_eq!(reused, "alpha\nbeta\n</plist>");
    assert_eq!(buffer.len(), 0);
    assert_eq!(buffer.finalize(), "");
}

#[test]
fn feed_routes_by_end_marker() {
    let mut buffer = Buffer::new();
    assert_eq!(buffer.feed("\0<plist>".to_string()), None);
    assert_eq!(buffer.feed("<key>idle_ratio</key><real>1</real>".to_string()), None);
    assert_eq!(buffer.feed("</plist> ".to_string()), None);
    assert_eq!(buffer.len(), 3);
    assert_eq!(
        buffer.feed("</plist>".to_string()),
        Some("<plist>\n</plist> \n</plist>".to_string())
    );
    assert_eq!(buffer.len(), 0);
    assert_eq!(buffer.feed("</plist>".to_string()), Some("</plist>".to_string()));
}

#[test]
fn assemble_is_feeding_and_finalizing() {
    let clean = body(15);
    let mut dirty = clean.clone();
    dirty[0] = format!("\0{}", clean[0]);
    dirty.insert(clean.len() - 3, DEFECT.to_string());
    assert_eq!(assemble(&dirty), clean.join("\n"));
    assert_eq!(assemble(&Vec::new()), "");
    assert_eq!(assemble(&vec!["\0only".to_string()]), "\0only");
}

#[test]
fn buffer_assembles_document_after_document() {
    let clean = body(15);
    let mut dirty = clean.clone();
    dirty[0] = format!("\0{}", clean[0]);
    dirty.insert(clean.len() - 3, DEFECT.to_string());
    let other = vec!["x".to_string(), "</plist>".to_string()];
    let mut buffer = Buffer::new();
    let first = buffer.assemble(&dirty);
    assert_eq!(buffer.len(), 0);
    assert_eq!(buffer.assemble(&other), "x\n</plist>");
    let again = buffer.assemble(&dirty);
    assert_eq!(first, clean.join("\n"));
    assert_eq!(again, first);
    assert_eq!(again, assemble(&dirty));
    assert_eq!(buffer.len(), 0);
}
