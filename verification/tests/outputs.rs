use hyprcap::outputs::{
    format_refresh_hz, inventory_from_hyprctl, inventory_from_wf_recorder, output_names,
    parse_first_wf_recorder_list_name, parse_hyprctl_monitor_names, parse_hyprctl_monitors,
    parse_wf_recorder_list_inventory, parse_wf_recorder_list_names, whole_rate, OutputInfo,
};

fn rate(o: &OutputInfo) -> Option<f64> {
    o.refresh.as_ref().map(|r| r.parse().unwrap())
}

/// Fixture shaped like real `hyprctl monitors -j` (geometry + refreshRate).
const HYPRCTL_TWO_HEADS: &str = r#"[
  {
    "id": 0,
    "name": "HDMI-A-1",
    "width": 2560,
    "height": 1440,
    "refreshRate": 144.0,
    "x": 0,
    "y": 0,
    "focused": true
  },
  {
    "id": 1,
    "name": "DP-1",
    "width": 1920,
    "height": 1080,
    "refreshRate": 59.951,
    "x": 2560,
    "y": 180,
    "focused": false
  }
]"#;

#[test]
fn parse_wf_recorder_list_all_names() {
    let sample = "\
1. Name: HDMI-A-1 Description: Foo (HDMI-A-1)
2. Name: DP-1 Description: Bar (DP-1)
";
    assert_eq!(
        parse_wf_recorder_list_names(sample),
        vec!["HDMI-A-1".to_string(), "DP-1".to_string()]
    );
    assert_eq!(
        parse_first_wf_recorder_list_name(sample).as_deref(),
        Some("HDMI-A-1")
    );
}

#[test]
fn parse_wf_recorder_list_empty() {
    assert!(parse_wf_recorder_list_names("").is_empty());
    assert!(parse_wf_recorder_list_names("no names here").is_empty());
    assert_eq!(parse_first_wf_recorder_list_name(""), None);
}

#[test]
fn parse_wf_recorder_inventory_has_no_geometry() {
    let sample = "\
1. Name: HDMI-A-1 Description: Foo (HDMI-A-1)
2. Name: DP-1 Description: Bar (DP-1)
";
    let inv = parse_wf_recorder_list_inventory(sample);
    assert_eq!(inv.len(), 2);
    for o in &inv {
        assert!(!o.has_geometry(), "must not invent positions: {o:?}");
        assert!(o.x.is_none());
        assert!(o.y.is_none());
        assert!(o.width.is_none());
        assert!(o.height.is_none());
        assert!(o.refresh.is_none());
        // display_line is name-only so scripts using first column still work
        assert_eq!(o.display_line(), o.name);
    }
    assert_eq!(inv[0].name, "HDMI-A-1");
    assert_eq!(inv[1].name, "DP-1");
}

#[test]
fn parse_hyprctl_names() {
    let sample = r#"[
      {"name":"DP-1","focused":false},
      {"name":"HDMI-A-1","focused":true}
    ]"#;
    assert_eq!(
        parse_hyprctl_monitor_names(sample).unwrap(),
        vec!["DP-1".to_string(), "HDMI-A-1".to_string()]
    );
}

#[test]
fn parse_hyprctl_monitors_geometry_and_refresh() {
    let inv = parse_hyprctl_monitors(HYPRCTL_TWO_HEADS).expect("parse ok");
    assert_eq!(inv.len(), 2);

    let a = &inv[0];
    assert_eq!(a.name, "HDMI-A-1");
    assert_eq!(a.x, Some(0));
    assert_eq!(a.y, Some(0));
    assert_eq!(a.width, Some(2560));
    assert_eq!(a.height, Some(1440));
    assert_eq!(rate(a), Some(144.0));
    assert!(a.has_geometry());
    assert_eq!(a.display_line(), "HDMI-A-1\t0\t0\t2560\t1440\t144");

    let b = &inv[1];
    assert_eq!(b.name, "DP-1");
    assert_eq!(b.x, Some(2560));
    assert_eq!(b.y, Some(180));
    assert_eq!(b.width, Some(1920));
    assert_eq!(b.height, Some(1080));
    assert!((rate(b).unwrap() - 59.951).abs() < 1e-9);
    assert_eq!(b.display_line(), "DP-1\t2560\t180\t1920\t1080\t59.951");
}

#[test]
fn parse_hyprctl_accepts_refresh_alias() {
    let sample = r#"[{"name":"eDP-1","x":0,"y":0,"width":1920,"height":1080,"refresh":60.0}]"#;
    let inv = parse_hyprctl_monitors(sample).unwrap();
    assert_eq!(rate(&inv[0]), Some(60.0));
}

#[test]
fn parse_hyprctl_invalid_json_and_empty() {
    assert!(parse_hyprctl_monitors("not-json").is_none());
    assert!(parse_hyprctl_monitors("{}").is_none()); // object, not array
    assert_eq!(parse_hyprctl_monitors("[]").unwrap().len(), 0);
    assert!(parse_hyprctl_monitor_names("not-json").is_none());
}

#[test]
fn parse_hyprctl_skips_missing_or_empty_name() {
    let sample = r#"[
      {"x":0,"y":0,"width":1,"height":1},
      {"name":"","width":1},
      {"name":"  "},
      {"name":"OK","width":800,"height":600,"x":10,"y":20,"refreshRate":60}
    ]"#;
    let inv = parse_hyprctl_monitors(sample).unwrap();
    assert_eq!(inv.len(), 1);
    assert_eq!(inv[0].name, "OK");
    assert_eq!(inv[0].x, Some(10));
    assert_eq!(inv[0].width, Some(800));
}

#[test]
fn parse_hyprctl_partial_geometry_not_has_geometry() {
    // Missing y — do not invent; has_geometry false for layout-true gates later.
    let sample = r#"[{"name":"A","x":0,"width":100,"height":100,"refreshRate":60}]"#;
    let inv = parse_hyprctl_monitors(sample).unwrap();
    assert_eq!(inv[0].x, Some(0));
    assert!(inv[0].y.is_none());
    assert!(!inv[0].has_geometry());
    // Partial → name-only CLI line (no fake zeros for missing fields).
    assert_eq!(inv[0].display_line(), "A");
}

#[test]
fn display_line_geometry_without_refresh_blank_sixth_field() {
    // Full geometry present, no refreshRate/refresh → still TSV with blank refresh.
    let sample = r#"[{"name":"eDP-1","x":0,"y":0,"width":1920,"height":1080}]"#;
    let inv = parse_hyprctl_monitors(sample).unwrap();
    assert_eq!(inv.len(), 1);
    assert!(inv[0].has_geometry());
    assert!(inv[0].refresh.is_none());
    assert_eq!(inv[0].display_line(), "eDP-1\t0\t0\t1920\t1080\t");
}

#[test]
fn has_geometry_requires_positive_dimensions() {
    // x/y may be 0 (primary origin). width/height must be > 0.
    let ok = OutputInfo {
        name: "A".into(),
        x: Some(0),
        y: Some(0),
        width: Some(1920),
        height: Some(1080),
        refresh: None,
    };
    assert!(ok.has_geometry());

    let zero_w = OutputInfo {
        width: Some(0),
        ..ok.clone()
    };
    assert!(!zero_w.has_geometry());
    assert_eq!(zero_w.display_line(), "A");

    let zero_h = OutputInfo {
        height: Some(0),
        ..ok.clone()
    };
    assert!(!zero_h.has_geometry());

    let neg = OutputInfo {
        width: Some(-1),
        height: Some(100),
        ..ok
    };
    assert!(!neg.has_geometry());
}

#[test]
fn names_only_constructor_never_invents_layout() {
    let o = OutputInfo::names_only("HDMI-A-1");
    assert!(!o.has_geometry());
    assert_eq!(
        o,
        OutputInfo {
            name: "HDMI-A-1".into(),
            x: None,
            y: None,
            width: None,
            height: None,
            refresh: None,
        }
    );
}

#[test]
fn refresh_rates_are_shown_without_idle_zeros() {
    assert_eq!(format_refresh_hz("144.0"), "144");
    assert_eq!(format_refresh_hz("59.951"), "59.951");
    assert_eq!(format_refresh_hz("60"), "60");
}

#[test]
fn exponents_are_written_out() {
    assert_eq!(format_refresh_hz("1e16"), "10000000000000000");
    assert_eq!(format_refresh_hz("1.5e17"), "150000000000000000");
    assert_eq!(format_refresh_hz("1e-7"), "0.0000001");
    assert_eq!(format_refresh_hz("-1.25e-6"), "-0.00000125");
    assert_eq!(format_refresh_hz("1e300"), "9223372036854775807");
    assert_eq!(format_refresh_hz("-1e300"), "-9223372036854775808");
    assert_eq!(format_refresh_hz("-0.0"), "0");
    assert_eq!(format_refresh_hz("9007199254740993"), "9007199254740992");
    assert_eq!(format_refresh_hz("9007199254740995"), "9007199254740996");
    assert_eq!(format_refresh_hz("18446744073709551615"), "9223372036854775807");
    assert_eq!(format_refresh_hz("no rate"), "no rate");
}

#[test]
fn rates_are_shown_as_their_doubles_are() {
    let mut rates = vec![
        0.0,
        59.951,
        143.98,
        1e15,
        9007199254740991.0,
        1.2345678901234567e17,
        9.223372036854775e18,
        9.3e18,
        4.9e-324,
        f64::MAX,
        f64::MIN_POSITIVE,
    ];
    for k in 0..200 {
        rates.push(1.7 * 10f64.powi(k - 100));
        rates.push((k as f64).exp2());
        rates.push(1.0 / (k as f64 + 3.0).powi(k % 11));
    }
    for r in rates {
        for r in [r, -r] {
            let number = serde_json::to_string(&r).unwrap();
            let json = format!(r#"[{{"name":"A","refreshRate":{number}}}]"#);
            let inv = parse_hyprctl_monitors(&json).unwrap();
            // The number as it was read.
            let r = rate(&inv[0]).unwrap();
            let shown = if r.fract() == 0.0 && r.is_finite() {
                format!("{}", r as i64)
            } else {
                format!("{r}")
            };
            assert_eq!(format_refresh_hz(inv[0].refresh.as_ref().unwrap()), shown, "{r:?}");
        }
    }
}

#[test]
fn numbers_that_do_not_fit_are_left_out() {
    let sample = r#"[{"name":"A","x":-5,"y":4294967296,"width":1920.9,"height":"tall","refreshRate":-1}]"#;
    let inv = parse_hyprctl_monitors(sample).unwrap();
    assert_eq!(inv[0].x, Some(-5));
    assert_eq!(inv[0].y, None);
    assert_eq!(inv[0].width, Some(1920));
    assert_eq!(inv[0].height, None);
    assert_eq!(rate(&inv[0]), Some(-1.0));
    assert_eq!(whole_rate("-1"), None);
    let limits = r#"[{"name":"A","x":-2147483648,"y":2147483647,"width":2147483648,"height":-2147483649}]"#;
    let inv = parse_hyprctl_monitors(limits).unwrap();
    assert_eq!(inv[0].x, Some(i32::MIN));
    assert_eq!(inv[0].y, Some(i32::MAX));
    assert_eq!(inv[0].width, None);
    assert_eq!(inv[0].height, None);
}

#[test]
fn inventory_falls_back_only_when_empty() {
    assert!(inventory_from_hyprctl("[]").is_none());
    assert!(inventory_from_hyprctl("nonsense").is_none());
    assert_eq!(
        output_names(&inventory_from_hyprctl(HYPRCTL_TWO_HEADS).unwrap()),
        vec!["HDMI-A-1".to_string(), "DP-1".to_string()]
    );
}

#[test]
fn wf_recorder_stderr_counts_only_after_success() {
    let list = "1. Name: DP-1 Description: x";
    assert_eq!(inventory_from_wf_recorder(list, "", false).len(), 1);
    assert_eq!(inventory_from_wf_recorder("  ", list, true).len(), 1);
    assert!(inventory_from_wf_recorder("", list, false).is_empty());
}
