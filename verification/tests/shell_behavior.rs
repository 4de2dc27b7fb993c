use minish::dispatch::{argv_of, parse_i32, plan_line, search_verdict, split_path_entries, Dispatch};
use minish::error::ErrorKind;
use minish::helpers::{AssertThreadSafe, SplitOnceOwned};
use minish::io::{take_line_chunk, BufReader};
use minish::shell::{parse_shell, split_shell, ShellLine};
use minish::start::{var, Termination};
use minish::system::{AllocPlan, CreateMappingAlloc};

fn toks(line: &str) -> Vec<String> {
    let mut it = split_shell(line);
    let mut v = Vec::new();
    while let Some(t) = it.next() {
        v.push(t);
    }
    v
}

fn parsed(line: &str) -> ShellLine {
    parse_shell(split_shell(line))
}

#[test]
fn splits_on_whitespace() {
    assert_eq!(toks("a b"), vec!["a", "b"]);
    assert_eq!(toks("  ls   -l  "), vec!["ls", "-l"]);
    assert_eq!(toks("   "), Vec::<String>::new());
    assert_eq!(toks(""), Vec::<String>::new());
}

#[test]
fn escape_keeps_literal_space() {
    assert_eq!(toks("a\\ b"), vec!["a b"]);
    assert_eq!(toks("a\\\\b"), vec!["a\\b"]);
    assert_eq!(toks("ab\\"), vec!["ab"]);
}

#[test]
fn quotes_suppress_word_splitting() {
    assert_eq!(toks("ls \"a b\" c"), vec!["ls", "a b", "c"]);
    assert_eq!(toks("ls 'a b' c"), vec!["ls", "a b", "c"]);
    assert_eq!(toks("a\"b c\"d"), vec!["ab cd"]);
    assert_eq!(toks("\"\" x"), vec!["", "x"]);
}

#[test]
fn unterminated_quote_yields_final_token() {
    assert_eq!(toks("\"abc"), vec!["abc"]);
    assert_eq!(toks("'ab c"), vec!["ab c"]);
    assert_eq!(toks("echo \"a b"), vec!["echo", "a b"]);
}

#[test]
fn semicolon_at_line_start_is_own_token() {
    assert_eq!(toks(";"), vec![";"]);
    assert_eq!(toks("; ls"), vec![";", "ls"]);
}

#[test]
fn semicolon_mid_line_splits_and_is_rescanned() {
    assert_eq!(toks("ab;cd"), vec!["ab", ";", "cd"]);
    assert_eq!(toks("ls ;"), vec!["ls", ";"]);
}

#[test]
fn quoted_semicolon_is_ordinary() {
    assert_eq!(toks("\"a;b\""), vec!["a;b"]);
    assert_eq!(toks("a\\;b"), vec!["a;b"]);
}

#[test]
fn leading_assignments_then_command() {
    let line = parsed("FOO=1 BAR=2 ls -l");
    let env: Vec<(String, String)> =
        line.env.iter().map(|e| (e.key.clone(), e.val.clone())).collect();
    assert_eq!(env, vec![("FOO".to_string(), "1".to_string()), ("BAR".to_string(),
        "2".to_string())]);
    assert_eq!(line.command.as_deref(), Some("ls"));
    assert_eq!(line.args, vec!["-l"]);
}

#[test]
fn no_assignment_after_command_starts() {
    let line = parsed("ls FOO=1");
    assert!(line.env.is_empty());
    assert_eq!(line.command.as_deref(), Some("ls"));
    assert_eq!(line.args, vec!["FOO=1"]);
}

#[test]
fn assignment_splits_on_first_equals() {
    let line = parsed("A=b=c ls");
    assert_eq!(line.env[0].key, "A");
    assert_eq!(line.env[0].val, "b=c");
    assert_eq!(line.command.as_deref(), Some("ls"));
}

#[test]
fn all_assignments_no_command() {
    let line = parsed("FOO=1 BAR=2");
    assert_eq!(line.env.len(), 2);
    assert!(line.command.is_none());
    assert!(line.args.is_empty());
}

#[test]
fn exit_with_status_terminates_with_it() {
    assert_eq!(plan_line(&parsed("exit 7")), Dispatch::Terminate { status: 7 });
    assert_eq!(plan_line(&parsed("return 3")), Dispatch::Terminate { status: 3 });
    assert_eq!(plan_line(&parsed("logout 1")), Dispatch::Terminate { status: 1 });
}

#[test]
fn bare_exit_terminates_with_zero() {
    assert_eq!(plan_line(&parsed("exit")), Dispatch::Terminate { status: 0 });
    assert_eq!(plan_line(&parsed("return")), Dispatch::Terminate { status: 0 });
    assert_eq!(plan_line(&parsed("logout")), Dispatch::Terminate { status: 0 });
}

#[test]
fn exit_with_bad_status_reports_invalid_input() {
    assert_eq!(plan_line(&parsed("exit notanumber")), Dispatch::InvalidStatus);
    assert_eq!(plan_line(&parsed("exit 12x")), Dispatch::InvalidStatus);
    assert_eq!(plan_line(&parsed("exit 9999999999999")), Dispatch::InvalidStatus);
}

#[test]
fn empty_line_is_a_no_op() {
    assert_eq!(plan_line(&parsed("   ")), Dispatch::Empty);
}

#[test]
fn command_with_separator_launches_directly() {
    assert_eq!(plan_line(&parsed("/bin/ls -l")), Dispatch::LaunchDirect);
    assert_eq!(plan_line(&parsed("ls -l")), Dispatch::LaunchSearch);
}

#[test]
fn status_argument_parses_like_a_decimal_i32() {
    assert_eq!(parse_i32("0"), Some(0));
    assert_eq!(parse_i32("007"), Some(7));
    assert_eq!(parse_i32("+5"), Some(5));
    assert_eq!(parse_i32("-12"), Some(-12));
    assert_eq!(parse_i32("2147483647"), Some(i32::MAX));
    assert_eq!(parse_i32("2147483648"), None);
    assert_eq!(parse_i32("-2147483648"), Some(i32::MIN));
    assert_eq!(parse_i32("-2147483649"), None);
    assert_eq!(parse_i32(""), None);
    assert_eq!(parse_i32("-"), None);
    assert_eq!(parse_i32("1 2"), None);
    assert_eq!(parse_i32("99999999999999999999"), None);
}

#[test]
fn argv_starts_with_the_command() {
    let line = parsed("ls -l /tmp");
    let argv = argv_of(&line);
    assert_eq!(argv, vec!["ls", "-l", "/tmp"]);
}

#[test]
fn search_stops_at_first_success() {
    assert_eq!(search_verdict(&vec![-1, 0, -2]), Ok(1));
    assert_eq!(search_verdict(&vec![0, -1]), Ok(0));
}

#[test]
fn exhausted_search_surfaces_last_failure() {
    assert_eq!(search_verdict(&vec![-1, -21]), Err(-21));
    assert_eq!(search_verdict(&vec![-21, -1]), Err(-1));
}

#[test]
fn empty_search_fails_as_not_found() {
    let verdict = search_verdict(&Vec::new());
    assert_eq!(verdict, Err(-21));
    assert_eq!(ErrorKind::from_raw_os_error(verdict.unwrap_err()), ErrorKind::NotFound);
}

#[test]
fn path_entries_keep_their_order() {
    let entries = split_path_entries("/bin:/usr/bin:/opt/bin");
    assert_eq!(entries, vec!["/bin", "/usr/bin", "/opt/bin"]);
    assert_eq!(split_path_entries("a::b"), vec!["a", "", "b"]);
    assert_eq!(split_path_entries(""), vec![""]);
}

#[test]
fn status_codes_translate_through_the_table() {
    assert_eq!(ErrorKind::from_raw_os_error(-1), ErrorKind::PermissionDenied);
    assert_eq!(ErrorKind::from_raw_os_error(-11), ErrorKind::OutOfMemory);
    assert_eq!(ErrorKind::from_raw_os_error(-21), ErrorKind::NotFound);
    assert_eq!(ErrorKind::from_raw_os_error(-24), ErrorKind::WouldBlock);
    assert_eq!(ErrorKind::from_raw_os_error(0), ErrorKind::Other);
    assert_eq!(ErrorKind::from_raw_os_error(7), ErrorKind::Other);
    assert_eq!(ErrorKind::from_raw_os_error(-99), ErrorKind::__Uncategorized);
}

#[test]
fn every_kind_has_a_message() {
    assert_eq!(ErrorKind::NotFound.message(), "Not Found");
    assert_eq!(ErrorKind::InvalidInput.message(), "Invalid Input");
    assert_eq!(ErrorKind::__Uncategorized.message(), "(Uncategorized)");
    assert!(!ErrorKind::OutOfMemory.message().is_empty());
}

#[test]
fn zero_byte_request_maps_nothing() {
    let alloc = CreateMappingAlloc;
    assert_eq!(alloc.plan_allocation(0, 1), AllocPlan::Dangling);
    assert_eq!(alloc.plan_allocation(0, 4096), AllocPlan::Dangling);
}

#[test]
fn oversized_alignment_is_refused() {
    let alloc = CreateMappingAlloc;
    assert_eq!(alloc.plan_allocation(16, 8192), AllocPlan::Refused);
}

#[test]
fn allocations_round_up_to_whole_pages() {
    let alloc = CreateMappingAlloc;
    assert_eq!(alloc.plan_allocation(1, 1), AllocPlan::Mapped { pages: 1 });
    assert_eq!(alloc.plan_allocation(4096, 4096), AllocPlan::Mapped { pages: 1 });
    assert_eq!(alloc.plan_allocation(4097, 8), AllocPlan::Mapped { pages: 2 });
    assert_eq!(alloc.plan_deallocation(4097), 2);
}

#[test]
fn small_growth_takes_the_standing_candidate() {
    let alloc = CreateMappingAlloc;
    assert_eq!(alloc.plan_growth(1000, 8), (262144, 4096));
    assert_eq!(alloc.plan_growth(262144, 4096), (262144, 4096));
}

#[test]
fn large_growth_exactly_fits_the_request() {
    let alloc = CreateMappingAlloc;
    // 300000 rounded to the record boundary, plus one 8-byte record, then
    // padded to a page: 300008 -> 303104.
    assert_eq!(alloc.plan_growth(300000, 8), (303104, 4096));
    let (grown, align) = alloc.plan_growth(262145, 4096);
    assert!(grown >= 262145);
    assert_eq!(align, 4096);
    assert_eq!(grown % 4096, 0);
}

#[test]
fn line_chunks_stop_after_the_delimiter() {
    let mut out = Vec::new();
    let (used, found) = take_line_chunk(&mut out, b"hello\nworld", b'\n');
    assert_eq!(used, 6);
    assert!(found);
    assert_eq!(out, b"hello\n");
    let (used2, found2) = take_line_chunk(&mut out, b"wo", b'\n');
    assert_eq!(used2, 2);
    assert!(!found2);
    assert_eq!(out, b"hello\nwo");
}

#[test]
fn buffered_reader_window_moves_forward() {
    let mut reader = BufReader::new(17u32);
    assert_eq!(reader.buffered(), b"");
    let taken = reader.refill(b"abcd");
    assert_eq!(taken, 4);
    assert_eq!(reader.buffered(), b"abcd");
    reader.consume(2);
    assert_eq!(reader.buffered(), b"cd");
    let big = [7u8; 100];
    assert_eq!(reader.refill(&big), 64);
    assert_eq!(reader.buffered().len(), 64);
    assert_eq!(reader.into_inner(), 17u32);
}

#[test]
fn split_once_takes_the_first_occurrence() {
    assert_eq!("FOO=1".to_string().split_once_owned("="), Ok(("FOO".to_string(),
        "1".to_string())));
    assert_eq!("a=b=c".to_string().split_once_owned("="), Ok(("a".to_string(),
        "b=c".to_string())));
    assert_eq!("abc".to_string().split_once_owned("="), Err("abc".to_string()));
    let mut s = "key=value".to_string();
    assert_eq!(s.split_once_take("="), Some("value".to_string()));
    assert_eq!(s, "key");
}

#[test]
fn env_lookup_returns_the_first_match() {
    let line = parsed("PATH=/bin PATH=/other HOME=/root");
    assert_eq!(var(&line.env, "PATH"), Some(&"/bin".to_string()));
    assert_eq!(var(&line.env, "HOME"), Some(&"/root".to_string()));
    assert_eq!(var(&line.env, "SHELL"), None);
}

#[test]
fn rendering_echoes_the_parsed_line() {
    assert_eq!(parsed("FOO=1 BAR=2 ls -l").render(), "FOO=1 BAR=2 ls -l");
    assert_eq!(parsed("ls -l").render(), "ls -l");
    assert_eq!(parsed("FOO=1").render(), "FOO=1");
    assert_eq!(parsed("  ls   \"a b\"  ").render(), "ls a b");
}

#[test]
fn single_context_wrapper_hands_its_value_back() {
    let mut cell = AssertThreadSafe::new_unchecked(5i64);
    assert_eq!(*AssertThreadSafe::get(&cell), 5);
    *AssertThreadSafe::get_mut(&mut cell) = 9;
    assert_eq!(AssertThreadSafe::into_innner(cell), 9);
}

#[test]
fn results_report_their_exit_status() {
    assert_eq!(7i32.report(), 7);
    assert_eq!(().report(), 0);
    assert_eq!(Ok::<i32, ErrorKind>(3).report(), 3);
    assert_eq!(Err::<i32, ErrorKind>(ErrorKind::NotFound).report(), -1);
}
