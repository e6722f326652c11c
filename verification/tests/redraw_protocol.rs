use mado::msgpack::MsgValue;
use mado::redraw::{decode_redraw_notification, RedrawEvent};

fn s(text: &str) -> MsgValue {
    MsgValue::from_str(text)
}

fn n(value: u64) -> MsgValue {
    MsgValue::from_u64(value)
}

fn array(items: Vec<MsgValue>) -> MsgValue {
    MsgValue::Array(items)
}

#[test]
fn decodes_batched_linegrid_events() {
    let params = vec![
        array(vec![s("grid_resize"), array(vec![n(1), n(80), n(24)])]),
        array(vec![
            s("grid_line"),
            array(vec![
                n(1),
                n(0),
                n(0),
                array(vec![
                    array(vec![s("日"), n(4)]),
                    array(vec![s("")]),
                    array(vec![s(" "), n(0), n(3)]),
                ]),
                MsgValue::Boolean(false),
            ]),
        ]),
        array(vec![s("flush"), array(vec![])]),
    ];

    let events = decode_redraw_notification(&params).unwrap();
    assert_eq!(events.len(), 3);
    assert!(matches!(events[0], RedrawEvent::GridResize { width: 80, height: 24, .. }));
    let RedrawEvent::GridLine { cells, .. } = &events[1] else {
        panic!("expected grid_line");
    };
    assert_eq!(cells[0].text, "日");
    assert_eq!(cells[1].text, "");
    assert_eq!(cells[2].repeat, 3);
    assert_eq!(events[2], RedrawEvent::Flush);
}

#[test]
fn keeps_unknown_events_forward_compatible() {
    let params = vec![array(vec![s("future_event"), array(vec![n(42)])])];

    let events = decode_redraw_notification(&params).unwrap();
    assert!(matches!(
        &events[0],
        RedrawEvent::Unknown { name, .. } if name == "future_event"
    ));
}

#[test]
fn decodes_gui_options_and_cursor_styles() {
    let params = vec![
        array(vec![
            s("option_set"),
            array(vec![s("guifont"), s("SF Mono:h16")]),
            array(vec![s("linespace"), n(2)]),
        ]),
        array(vec![
            s("mode_info_set"),
            array(vec![
                MsgValue::Boolean(true),
                array(vec![MsgValue::Dict(vec![
                    (s("cursor_shape"), s("vertical")),
                    (s("cell_percentage"), n(25)),
                    (s("blinkon"), n(500)),
                ])]),
            ]),
        ]),
    ];

    let events = decode_redraw_notification(&params).unwrap();
    assert!(matches!(
        &events[0],
        RedrawEvent::OptionSet { name, value }
            if name == "guifont" && value.as_str() == Some("SF Mono:h16")
    ));
    assert!(matches!(
        &events[1],
        RedrawEvent::OptionSet { name, value }
            if name == "linespace" && value.as_i64() == Some(2)
    ));
    let RedrawEvent::ModeInfoSet { styles, .. } = &events[2] else {
        panic!("expected mode_info_set");
    };
    assert_eq!(styles[0].cell_percentage, 25);
    assert_eq!(styles[0].blink_on, 500);
}

fn error_of(params: Vec<MsgValue>) -> String {
    decode_redraw_notification(&params).unwrap_err().message
}

#[test]
fn refuses_malformed_batches() {
    assert_eq!(error_of(vec![n(3)]), "redraw event must be an array");
    assert_eq!(error_of(vec![array(vec![])]), "redraw event name must be a string");
    assert_eq!(error_of(vec![array(vec![s("flush"), n(1)])]), "flush arguments must be an array");
    let bad_resize = array(vec![s("grid_resize"), array(vec![n(1), s("wide"), n(24)])]);
    assert_eq!(error_of(vec![bad_resize]), "grid_resize argument 1 must be an unsigned integer");
    let bad_scroll = array(vec![
        s("grid_scroll"),
        array(vec![n(1), n(0), n(10), n(0), n(80), s("up"), n(0)]),
    ]);
    assert_eq!(error_of(vec![bad_scroll]), "grid_scroll argument 5 must be an integer");
    let bad_cell = array(vec![
        s("grid_line"),
        array(vec![n(1), n(0), n(0), array(vec![array(vec![s("a")]), array(vec![n(7)])]), MsgValue::Boolean(false)]),
    ]);
    assert_eq!(error_of(vec![bad_cell]), "grid cell text must be a string");
    let good = array(vec![s("flush"), array(vec![])]);
    let no_styles = array(vec![s("mode_info_set"), array(vec![MsgValue::Boolean(true)])]);
    assert_eq!(error_of(vec![good, no_styles]), "mode_info_set is missing cursor styles");
    assert!(decode_redraw_notification(&[]).unwrap().is_empty());
}

#[test]
fn decodes_highlights_colors_and_scrolls() {
    let params = vec![
        array(vec![
            s("hl_attr_define"),
            array(vec![
                n(3),
                MsgValue::Dict(vec![(s("foreground"), n(0xff0000)), (s("bold"), MsgValue::Boolean(true))]),
                MsgValue::Dict(vec![]),
                array(vec![]),
            ]),
        ]),
        array(vec![s("default_colors_set"), array(vec![n(1), n(2), MsgValue::from_i64(-1), n(0), n(0)])]),
        array(vec![s("grid_scroll"), array(vec![n(1), n(0), n(10), n(0), n(80), MsgValue::from_i64(-2), n(0)])]),
        array(vec![s("grid_cursor_goto"), array(vec![n(1), n(3), n(4)])]),
        array(vec![s("mode_change"), array(vec![s("insert"), n(1)])]),
    ];
    let events = decode_redraw_notification(&params).unwrap();
    let RedrawEvent::HighlightDefine { id, attrs } = &events[0] else {
        panic!("expected hl_attr_define");
    };
    assert_eq!(*id, 3);
    assert_eq!(attrs.foreground, Some(0xff0000));
    assert!(attrs.bold && !attrs.italic);
    assert_eq!(events[1], RedrawEvent::DefaultColorsSet { foreground: 1, background: 2, special: -1 });
    assert_eq!(
        events[2],
        RedrawEvent::GridScroll { grid: 1, top: 0, bottom: 10, left: 0, right: 80, rows: -2, cols: 0 }
    );
    assert_eq!(events[3], RedrawEvent::GridCursorGoto { grid: 1, row: 3, col: 4 });
    assert_eq!(events[4], RedrawEvent::ModeChange { mode: "insert".to_string(), mode_index: 1 });
}
