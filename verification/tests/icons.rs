use vpncbar::tray_icon::{
    extract_path, foreground, icon, segments, tokenize, Tok, BOLT_PATH,
};

fn pieces(d: &str) -> Vec<String> {
    tokenize(d)
        .into_iter()
        .map(|t| match t {
            Tok::Cmd(c) => c.to_string(),
            Tok::Num(n) => format!("#{n}"),
        })
        .collect()
}

fn steps(d: &str) -> Vec<String> {
    segments(&tokenize(d))
        .into_iter()
        .map(|s| format!("{}{} {}", s.op, if s.relative { "~" } else { "" }, s.args.join(",")))
        .collect()
}

#[test]
fn paths_are_found_in_drawings() {
    assert_eq!(extract_path("<path d=\"M1 2\"/>").as_deref(), Some("M1 2"));
    assert_eq!(extract_path("<path d='M1 2' id=\"x\"/>").as_deref(), Some("M1 2"));
    assert_eq!(
        extract_path("<svg><path d='M0 0'/><path d=\"M1 1\"/></svg>").as_deref(),
        Some("M0 0")
    );
    assert_eq!(
        extract_path("<svg><path d=\"M0'0\"/><path d='M1 1'/></svg>").as_deref(),
        Some("M0'0")
    );
    assert_eq!(extract_path("<g d=\"x\"/><path id='p' d='M2 2'/>").as_deref(), Some("M2 2"));
    assert_eq!(extract_path("<g d=\"x\"/>"), None);
    assert_eq!(extract_path("<path id=\"x\"/>"), None);
    // The attribute of another element is not taken, nor what another attribute holds.
    assert_eq!(extract_path("<path/><g d='z'/>"), None);
    assert_eq!(extract_path("<path></path><path d='z'/>"), None);
    assert_eq!(extract_path("<paths d='x'/><path d='z'/>").as_deref(), Some("z"));
    assert_eq!(extract_path("<path a='>' b=\" d='x'\" d='z'/>").as_deref(), Some("z"));
    assert_eq!(extract_path("<path id='x' rd='y'\n\td = 'z'/>").as_deref(), Some("z"));
    assert_eq!(extract_path("<path d=\"M1 2"), None);
}

#[test]
fn paths_are_cut_into_pieces() {
    assert_eq!(pieces("M1-2.5L.5,+3e-2z"), ["M", "#1", "#-2.5", "L", "#.5", "#+3e-2", "z"]);
    assert_eq!(pieces("1.2.3 4 - 5 1e 6E+2 é7"), ["#4", "#5", "#6E+2", "#7"]);
    assert!(pieces(" ,\n").is_empty());
}

#[test]
fn only_what_reads_as_a_number_is_one() {
    for s in [
        "1", "-1", "+1", "1.", ".5", "1.5", "-.5e3", "1e5", "1E-5", "1.e+7", "1e", "1e+", ".",
        "-", "+.", "1..2", "1.2.3", "e5", "1e5e6", "1e5.5", "00", "-0.0",
    ] {
        let expected = s.parse::<f64>().is_ok();
        let read = tokenize(s);
        let got = matches!(read.as_slice(), [Tok::Num(n)] if n == s);
        assert_eq!(got, expected, "{s}");
    }
}

#[test]
fn steps_of_the_bolt() {
    assert_eq!(
        steps(BOLT_PATH),
        ["m 13,2", "l 3,14", "l 12,14", "l 11,22", "l 21,10", "l 12,10", "z "]
    );
}

#[test]
fn steps_repeat_and_move_on() {
    assert_eq!(steps("m1 2 3 4 5 6"), ["m~ 1,2", "l~ 3,4", "l~ 5,6"]);
    assert_eq!(steps("M1 2H3 4v5"), ["m 1,2", "h 3", "h 4", "v~ 5"]);
    assert_eq!(
        steps("c1 2 3 4 5 6A1 2 3 4 5 6 7"),
        ["c~ 1,2,3,4,5,6", "a 1,2,3,4,5,6,7"]
    );
}

#[test]
fn steps_pass_over_what_cannot_be_drawn() {
    // A number that is missing is zero, and takes nothing.
    assert_eq!(steps("M1 L2"), ["m 1,0", "l 2,0"]);
    // Numbers behind a closed path are passed over.
    assert_eq!(steps("M1 2Z 3 4 L5 6"), ["m 1,2", "z ", "l 5,6"]);
    // An unknown command takes the next piece with it, and repeats.
    assert_eq!(steps("Q1 2 3 4 M5 6"), ["m 5,6"]);
    assert_eq!(steps("Q M5 6"), Vec::<String>::new());
    assert_eq!(steps("Q"), Vec::<String>::new());
    // Without a command, a path begins with a move.
    assert_eq!(steps("1 2 3 4"), ["m 1,2", "l 3,4"]);
}

#[test]
fn pixels_are_put_in_order_and_undone() {
    // Two rows of two pixels, with padding behind each row.
    let data = vec![
        10, 20, 30, 255, 0, 0, 0, 0, 99, //
        64, 32, 16, 128, 5, 1, 2, 1, 98,
    ];
    assert_eq!(
        icon(&data, 9, 2),
        [
            255, 30, 20, 10, 0, 0, 0, 0, //
            128, 31, 63, 127, 1, (2 * 255 % 256) as u8, 255, (5 * 255 % 256) as u8,
        ]
    );
    assert!(icon(&vec![], 0, 0).is_empty());
}

#[test]
fn the_environment_may_ask_for_a_dark_icon() {
    assert!(foreground(Some("dark")) && foreground(Some("black")));
    assert!(!foreground(Some("light")) && !foreground(None));
}
