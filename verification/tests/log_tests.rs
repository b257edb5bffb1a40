use fencryption::log::{
    background_of, format_error, format_info, format_message, format_success, with_start_line,
    marker, LogKind, Tint,
};

#[test]
fn with_start_line_single_line() {
    assert_eq!(with_start_line("hello", ">"), "> hello");
}

#[test]
fn with_start_line_prefixes_every_line() {
    assert_eq!(with_start_line("a\nb\n\nc", "--"), "-- a\n-- b\n-- \n-- c");
}

#[test]
fn with_start_line_edge_cases() {
    assert_eq!(with_start_line("", "#"), "# ");
    assert_eq!(with_start_line("x", ""), " x");
    assert_eq!(with_start_line("\n", "#"), "# \n# ");
    assert_eq!(with_start_line("path/to/file", "    "), "     path/to/file");
    assert_eq!(with_start_line("é\nü", "→"), "→ é\n→ ü");
}

#[test]
fn background_of_each_kind() {
    assert_eq!(background_of(LogKind::Info), Tint::White);
    assert_eq!(background_of(LogKind::Success), Tint::BrightGreen);
    assert_eq!(background_of(LogKind::Error), Tint::BrightRed);
}

#[test]
fn format_marks_each_line() {
    colored::control::set_override(false);
    assert_eq!(format_info("Enter key: "), "  Enter key: ");
    assert_eq!(format_success("done\nok"), "  done\n  ok");
    assert_eq!(format_error("bad"), "  bad");
    assert_eq!(format_message("m", LogKind::Info), "  m");
    assert_eq!(marker(LogKind::Error), " ");
    colored::control::set_override(true);
    assert_eq!(marker(LogKind::Info), "\x1B[47;30m \x1B[0m");
    assert_eq!(format_info("i"), "\x1B[47;30m \x1B[0m i");
    assert_eq!(format_success("a\nb"), "\x1B[102;30m \x1B[0m a\n\x1B[102;30m \x1B[0m b");
    assert_eq!(format_error("e"), "\x1B[101;30m \x1B[0m e");
    assert_eq!(format_message("e", LogKind::Error), "\x1B[101;30m \x1B[0m e");
    colored::control::unset_override();
}
