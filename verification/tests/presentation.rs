use reach::presentation::error::render_input;
use reach::presentation::{
    human_duration, terminal_escape, write_command_error, write_input_error, write_output_error,
    write_result, write_startup_error, Theme,
};
use reach::{
    Cancelled, DiagnosticResult, Duration, ExecutionError, ExecutionErrorKind, InputError,
    parse_request,
};
use unicode_width::UnicodeWidthStr as _;

    #[test]
    fn terminal_text_keeps_readable_unicode_but_cannot_inject_terminal_state() {
        assert_eq!(
            terminal_escape("bücher\n\x1b[31m\u{202e}tail"),
            "bücher\\n\\u{1b}[31m\\u{202e}tail"
        );
    }

    #[test]
    fn durations_use_separated_units_shared_by_every_section() {
        assert_eq!(human_duration(Duration::from_secs(5)), "5 s");
        assert_eq!(human_duration(Duration::from_millis(16)), "16 ms");
        assert_eq!(human_duration(Duration::from_millis(1_200)), "1.2 s");
        assert_eq!(human_duration(Duration::from_micros(500)), "<1 ms");
    }

    #[test]
    fn execution_error_explains_failure_action_and_exit_code() {
        let result = DiagnosticResult::ExecutionError(ExecutionError {
            kind: ExecutionErrorKind::ResourceExhausted,
            safe_message: "socket limit reached\n\x1b[2J".into(),
            partial_evidence: Vec::new(),
        });
        let mut output = String::new();
        write_result(&result, &mut output, Theme::plain());
        assert_eq!(
        output,
        lines(&[
            r#"× CHECK COULD NOT FINISH"#,
            r#""#,
            r#"  This computer ran out of local networking resources before Reach could finish."#,
            r#""#,
            r#"WHAT TO DO"#,
            r#"  - Close applications that are using many network connections, then run the check again."#,
            r#"  - If the problem continues, send this report to your support team."#,
            r#""#,
            r#"TECHNICAL DETAILS"#,
            r#"  Error type         Local resources exhausted"#,
            r#"  Reason             socket limit reached\n\u{1b}[2J"#,
            r#"  Exit code          2"#,
        ])
    );
    }

    #[test]
    fn cancellation_is_plain_and_actionable() {
        let result = DiagnosticResult::Cancelled(Cancelled {
            safe_message: "interrupted".into(),
        });
        let mut output = String::new();
        write_result(&result, &mut output, Theme::plain());
        assert_eq!(
        output,
        lines(&[
            r#"! CHECK CANCELLED"#,
            r#""#,
            r#"  Reach stopped because the check was interrupted. No final network result was produced."#,
            r#""#,
            r#"TECHNICAL DETAILS"#,
            r#"  Reason             interrupted"#,
            r#"  Exit code          130"#,
        ])
    );
    }

    #[test]
    fn invalid_port_error_shows_the_safe_value_and_examples() {
        let mut output = String::new();
        write_input_error(
            &InputError::InvalidPortSyntax,
            "example.com",
            Some("eighty\n"),
            &mut output,
            Theme::plain(),
        );
        assert!(output.contains("The TCP port must contain digits only"));
        assert!(output.contains("eighty\\n"));
        assert!(output.contains("reach example.com 443"));
        assert!(output.contains("Exit code          2"));
    }

    #[test]
    fn every_execution_error_kind_has_an_explanation_action_reason_and_exit_code() {
        for kind in [
            ExecutionErrorKind::InvalidInput,
            ExecutionErrorKind::ScopedIpv6BindingFailed,
            ExecutionErrorKind::RequiredCapabilityUnavailable,
            ExecutionErrorKind::ResourceExhausted,
            ExecutionErrorKind::InternalFailure,
        ] {
            let result = DiagnosticResult::ExecutionError(ExecutionError {
                kind,
                safe_message: "safe technical reason".into(),
                partial_evidence: Vec::new(),
            });
            let mut output = String::new();
            write_result(&result, &mut output, Theme::plain());
            assert!(output.starts_with("× CHECK COULD NOT FINISH\n"));
            assert!(output.contains("WHAT TO DO"));
            assert!(output.contains("safe technical reason"));
            assert!(output.contains("Exit code          2"));
            assert!(!output.contains("ExecutionError"));
        }
    }

    #[test]
    fn every_input_error_has_plain_guidance_usage_and_safe_context() {
        for error in [
            InputError::EmptyAddress,
            InputError::InvalidAddress,
            InputError::InvalidIpv6Scope,
            InputError::InvalidPortSyntax,
            InputError::PortOutOfRange,
        ] {
            let mut output = String::new();
            write_input_error(
                &error,
                "value\n",
                Some("port\x1b"),
                &mut output,
                Theme::plain(),
            );
            assert!(output.contains("WHAT TO DO"));
            assert!(output.contains("USAGE"));
            assert!(output.contains("reach example.com 443"));
            assert!(output.contains("value\\n"));
            assert!(output.contains("port\\u{1b}"));
            assert!(output.contains("Exit code          2"));
            assert!(!output.contains('\u{1b}'));
        }
    }

    #[test]
    fn error_layouts_from_twenty_to_three_hundred_columns_do_not_overflow() {
        for width in [20_u16, 40, 59, 60, 80, 120, 140, 300] {
            let output = render_input(
                &InputError::InvalidPortSyntax,
                "example.com",
                Some("not-a-port"),
                Theme::plain_with_width(width),
            );
            for line in output.lines() {
                assert!(
                    line.width() <= usize::from(width),
                    "width {width}, rendered {} columns: {line:?}\n{output}",
                    line.width()
                );
            }
        }
    }

fn lines(expected: &[&str]) -> String {
    expected.iter().map(|line| format!("{line}\n")).collect()
}

#[test]
fn invalid_input_is_stderr_only_exit_two_and_cannot_inject_a_line() {
    let input = "bad\n\u{1b}[31m";
    let error = parse_request(input, None).expect_err("not an address");
    let mut stderr = String::new();
    write_input_error(&error, input, None, &mut stderr, Theme::plain());
    assert!(stderr.starts_with("× ADDRESS IS NOT VALID\n"));
    assert!(stderr.contains("Reach could not read the address"));
    assert!(stderr.contains("Address            bad\\n\\u{1b}[31m"));
    assert!(stderr.contains("Exit code          2"));
    assert!(!stderr.contains('\u{1b}'));
}

#[test]
fn missing_address_has_friendly_usage_and_examples() {
    let mut stderr = String::new();
    write_command_error(true, &mut stderr, Theme::plain());
    assert!(stderr.starts_with("× ADDRESS IS MISSING\n"));
    assert!(stderr.contains("reach <ADDRESS> [PORT]"));
    assert!(stderr.contains("reach example.com 443"));
    assert!(stderr.contains("Exit code          2"));
}

#[test]
fn invalid_port_explains_the_allowed_value() {
    let error = parse_request("example.com", Some("eighty")).expect_err("not a port");
    let mut stderr = String::new();
    write_input_error(&error, "example.com", Some("eighty"), &mut stderr, Theme::plain());
    assert!(stderr.starts_with("× TCP PORT IS NOT VALID\n"));
    assert!(stderr.contains("must contain digits only"));
    assert!(stderr.contains("Use a number from 1 through 65535"));
    assert!(stderr.contains("Port               eighty"));
}

#[test]
fn extra_arguments_get_friendly_command_guidance() {
    let mut stderr = String::new();
    write_command_error(false, &mut stderr, Theme::plain());
    assert!(stderr.starts_with("× COMMAND IS NOT VALID\n"));
    assert!(stderr.contains("accepts one address and, optionally, one TCP port"));
    assert!(stderr.contains("reach <ADDRESS> [PORT]"));
    assert!(stderr.contains("Exit code          2"));
}

#[test]
fn startup_and_output_failures_name_their_reason() {
    let mut stderr = String::new();
    write_startup_error("handler\ttaken", &mut stderr, Theme::plain());
    assert!(stderr.starts_with("× CHECK COULD NOT START\n"));
    assert!(stderr.contains("Reason             handler\\ttaken"));
    let mut stderr = String::from("kept\n");
    write_output_error("pipe closed", &mut stderr, Theme::plain());
    assert!(stderr.starts_with("kept\n× REPORT COULD NOT BE WRITTEN\n"));
    assert!(stderr.contains("Reason             pipe closed"));
    assert!(stderr.ends_with("Exit code          2\n"));
}

#[test]
fn a_styled_theme_colors_text_and_a_plain_one_does_not() {
    let styled = Theme::terminal(Some(80));
    assert_eq!(styled.success("ok"), "\u{1b}[1m\u{1b}[32mok\u{1b}[0m");
    assert_eq!(styled.failure("no"), "\u{1b}[1m\u{1b}[31mno\u{1b}[0m");
    assert_eq!(styled.warning("hm"), "\u{1b}[1m\u{1b}[33mhm\u{1b}[0m");
    assert_eq!(styled.heading("up"), "\u{1b}[1m\u{1b}[36mup\u{1b}[0m");
    assert_eq!(Theme::plain().failure("no"), "no");
}

#[test]
fn a_terminal_theme_keeps_its_width_between_one_and_three_hundred() {
    assert_eq!(Theme::terminal(None).content_width(), 120);
    assert_eq!(Theme::terminal(Some(0)).content_width(), 1);
    assert_eq!(Theme::terminal(Some(80)).content_width(), 80);
    assert_eq!(Theme::terminal(Some(5000)).content_width(), 300);
    assert_eq!(Theme::plain().content_width(), 100);
}

#[test]
fn escapes_cover_controls_and_format_characters_only() {
    assert_eq!(terminal_escape("\t\r\n\u{0}\u{7f}\u{9f}"), "\\t\\r\\n\\u{0}\\u{7f}\\u{9f}");
    assert_eq!(terminal_escape("\u{200b}\u{feff}\u{ad}"), "\\u{200b}\\u{feff}\\u{ad}");
    assert_eq!(terminal_escape("a\\b'c\"d \u{e9}\u{4e2d}"), "a\\b'c\"d \u{e9}\u{4e2d}");
}

#[test]
fn long_durations_are_rounded_to_tenths() {
    assert_eq!(human_duration(Duration::zero()), "<1 ms");
    assert_eq!(human_duration(Duration::from_nanos(999_999)), "<1 ms");
    assert_eq!(human_duration(Duration::from_millis(999)), "999 ms");
    assert_eq!(human_duration(Duration::from_millis(1_001)), "1.0 s");
    assert_eq!(human_duration(Duration::from_millis(1_250)), "1.2 s");
    assert_eq!(human_duration(Duration::from_secs(86_400)), "86400 s");
}

#[test]
fn a_plain_report_holds_no_control_character_but_line_feeds() {
    let result = DiagnosticResult::ExecutionError(ExecutionError {
        kind: ExecutionErrorKind::InternalFailure,
        safe_message: "\u{7}bell\r\n\u{1b}[2Jcleared\u{9b}1m".into(),
        partial_evidence: Vec::new(),
    });
    let mut output = String::new();
    write_result(&result, &mut output, Theme::plain());
    assert!(output.contains('\n'));
    assert!(output.chars().all(|letter| letter == '\n' || !letter.is_control()));
}

#[test]
fn a_colored_report_holds_no_escape_sequence_but_its_own() {
    let mut output = String::new();
    write_startup_error("\u{1b}[2Jcleared", &mut output, Theme::terminal(Some(80)));
    assert!(output.contains('\u{1b}'));
    let stripped = output
        .replace("\u{1b}[1m\u{1b}[31m", "")
        .replace("\u{1b}[1m\u{1b}[36m", "")
        .replace("\u{1b}[0m", "");
    assert!(stripped.chars().all(|letter| letter == '\n' || !letter.is_control()));
}
