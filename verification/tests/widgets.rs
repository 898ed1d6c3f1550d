use coolcooler::composition::{CanvasPolicy, SourceKind};
use coolcooler::layers::{
    default_widget_position, LayerSelection, RestoredWidget, WidgetId, WidgetLayers,
};
use coolcooler::types::DisplayCapability;
use coolcooler::types::Resolution;
use coolcooler::widget_state::{
    CircleGauge, Clock, DateWidget, FilledCircle, FreeText, HorizontalLine, MetricKind,
    MetricWidget, TextState, VerticalLine, WidgetCapabilities, WidgetSettings,
};
use coolcooler::widgets::{
    catalog, categories, font_data, font_index, font_names, spec_by_type_id, FontEntry,
    DEFAULT_FONT,
};

#[test]
fn catalog_lists_every_widget_type_once() {
    let specs = catalog();
    let ids: Vec<&str> = specs.iter().map(|s| s.type_id).collect();
    assert_eq!(
        ids,
        vec![
            "free_text", "h_line", "v_line", "circle", "filled_circle", "clock", "date",
            "cpu_usage", "cpu_temp", "ram_usage", "gpu_temp", "gpu_usage"
        ]
    );
    assert_eq!(spec_by_type_id("clock").unwrap().descriptor.name, "Time");
    assert!(spec_by_type_id("future_widget").is_none());
}

#[test]
fn categories_are_unique_in_display_order() {
    let cats = categories(&catalog());
    assert_eq!(cats, vec!["Static", "Datetime", "System Metrics"]);
}

#[test]
fn fonts_fall_back_to_the_default() {
    let names = font_names();
    assert_eq!(names.len(), 25);
    assert_eq!(names[0], DEFAULT_FONT);
    assert_eq!(font_index("Roboto"), 2);
    assert_eq!(font_index("No Such Font"), 0);
    let fonts = vec![
        FontEntry { name: "Inter", data: vec![1] },
        FontEntry { name: "Roboto", data: vec![2] },
        FontEntry { name: "Roboto", data: vec![3] },
    ];
    assert_eq!(font_data(&fonts, "Roboto"), &vec![2]);
    assert_eq!(font_data(&fonts, "Missing"), &vec![1]);
}

#[test]
fn text_settings_round_trip() {
    let mut text = TextState::new("42%".to_string(), [1, 2, 3, 4]);
    let settings = text.settings(true);
    assert_eq!(settings.text.as_deref(), Some("42%"));
    assert_eq!(settings.color, Some([1, 2, 3, 4]));
    assert_eq!(settings.font_name.as_deref(), Some(DEFAULT_FONT));
    assert_eq!(settings.thickness, None);
    text.apply_settings(&settings, true);
    assert_eq!(text.text(), "42%");
    assert_eq!(text.color(), [1, 2, 3, 4]);
    assert!(!text.set_text("42%".to_string()));
    assert!(text.set_text("43%".to_string()));
    let locked = WidgetSettings {
        text: Some("ignored".to_string()),
        color: None,
        font_name: Some("Roboto".to_string()),
        thickness: None,
    };
    text.apply_settings(&locked, false);
    assert_eq!(text.text(), "43%");
    assert_eq!(text.font_name(), "Roboto");
    assert!(text.settings(false).text.is_none());
}

#[test]
fn static_widget_defaults_and_settings() {
    let mut free = FreeText::new();
    assert_eq!(free.state().text(), "Text");
    assert_eq!(free.capabilities(), WidgetCapabilities { color: true, font: true, text: true });
    free.apply_settings(&WidgetSettings {
        text: Some("Hi".to_string()),
        color: None,
        font_name: None,
        thickness: None,
    });
    assert_eq!(free.settings().text.as_deref(), Some("Hi"));

    let mut gauge = CircleGauge::new();
    assert_eq!(gauge.thickness, 3);
    gauge.apply_settings(&WidgetSettings { text: None, color: None, font_name: None, thickness: Some(5) });
    assert_eq!(gauge.settings().thickness, Some(5));
    assert_eq!(gauge.settings().color, Some([0, 180, 255, 220]));

    let mut line = HorizontalLine::new();
    line.apply_settings(&WidgetSettings::default());
    assert_eq!(line.color, [255, 255, 255, 200]);
    assert_eq!(VerticalLine::new().capabilities(), WidgetCapabilities { color: true, font: false, text: false });
    assert_eq!(FilledCircle::new().settings().color, Some([255, 255, 255, 200]));
    assert_eq!(WidgetCapabilities::default(), WidgetCapabilities { color: false, font: false, text: false });
}

#[test]
fn clock_and_date_are_dynamic() {
    let mut clock = Clock::new();
    let mut date = DateWidget::new();
    assert!(clock.is_dynamic());
    assert!(date.is_dynamic());
    clock.tick();
    date.tick();
    assert!(!clock.state().text().is_empty());
    assert!(date.state().text().contains('-') || !date.state().text().is_empty());
    assert!(clock.settings().text.is_none());
}

#[test]
fn default_position_centres_the_widget() {
    assert_eq!(default_widget_position(Resolution::new(240, 240), (80, 28)), (80, 106));
    assert_eq!(default_widget_position(Resolution::new(240, 240), (301, 10)), (-30, 115));
}

#[test]
fn removing_an_added_widget_restores_the_layers() {
    let mut layers: WidgetLayers<u32> = WidgetLayers::new();
    let res = Resolution::new(240, 240);
    let text = spec_by_type_id("free_text").unwrap();
    let line = spec_by_type_id("h_line").unwrap();
    let a = layers.add_widget(&text, 1, res);
    let b = layers.add_widget(&line, 2, res);
    let c = layers.add_widget(&text, 3, res);
    assert_eq!((a, b, c), (WidgetId(0), WidgetId(1), WidgetId(2)));
    let labels: Vec<String> = layers.layer_options().into_iter().map(|(_, l)| l).collect();
    assert_eq!(labels, vec!["Background", "Free Text #1", "Horizontal Line", "Free Text #2"]);
    layers.select_layer(LayerSelection::Widget(c));
    assert_eq!(layers.active_widget_size_label(), "80×28");
    assert!(layers.set_active_widget_opacity(128));
    assert_eq!(layers.active_widget_layer().unwrap().opacity, 128);
    layers.remove_widget(c);
    assert_eq!(layers.active_layer(), LayerSelection::Base);
    let ids: Vec<WidgetId> = layers.layers().iter().map(|l| l.id).collect();
    assert_eq!(ids, vec![a, b]);
    let d = layers.add_widget(&text, 4, res);
    assert_eq!(d, WidgetId(3));
    assert!(layers.has_widgets_in_category("Static"));
    assert!(!layers.has_widgets_in_category("Time"));
    layers.clear_widgets();
    assert!(!layers.has_widgets());
}

#[test]
fn preset_widgets_are_restored_and_unknown_ones_skipped() {
    let mut layers: WidgetLayers<u32> = WidgetLayers::new();
    let res = Resolution::new(240, 240);
    layers.add_widget(&spec_by_type_id("clock").unwrap(), 9, res);
    let items = vec![
        RestoredWidget { type_id: "free_text".to_string(), widget: Some(1), position: (5, 6), size: (80, 28), opacity: 200 },
        RestoredWidget { type_id: "future_widget".to_string(), widget: Some(2), position: (0, 0), size: (10, 10), opacity: 255 },
        RestoredWidget { type_id: "clock".to_string(), widget: None, position: (0, 0), size: (10, 10), opacity: 255 },
        RestoredWidget { type_id: "gpu_temp".to_string(), widget: Some(4), position: (-3, 7), size: (60, 20), opacity: 255 },
    ];
    assert_eq!(layers.restore_widgets(items), 2);
    let restored: Vec<(&str, u32, (i32, i32), u8)> = layers
        .layers()
        .iter()
        .map(|l| (l.type_id, l.widget, l.position, l.opacity))
        .collect();
    assert_eq!(restored, vec![("free_text", 1, (5, 6), 200), ("gpu_temp", 4, (-3, 7), 255)]);
    assert_eq!(layers.active_layer(), LayerSelection::Base);
}

#[test]
fn widgets_are_added_only_when_the_policy_allows() {
    let blocked = CanvasPolicy::for_content(Some(DisplayCapability::FileTransfer), SourceKind::Animated);
    let allowed = CanvasPolicy::for_content(Some(DisplayCapability::FileTransfer), SourceKind::Static);
    let mut layers: WidgetLayers<u32> = WidgetLayers::new();
    let res = Resolution::new(320, 320);
    let spec = spec_by_type_id("h_line").unwrap();
    assert_eq!(layers.add_widget_if_allowed(blocked, &spec, 1, res), None);
    assert!(!layers.has_widgets());
    let id = layers.add_widget_if_allowed(allowed, &spec, 1, res).unwrap();
    assert_eq!(layers.active_layer(), LayerSelection::Widget(id));
    assert!(!layers.enforce_policy(allowed));
    assert!(layers.enforce_policy(blocked));
    assert!(!layers.has_widgets());
    assert!(!layers.enforce_policy(blocked));
}

#[test]
fn metric_widgets_start_blank_and_show_readings() {
    let mut ram = MetricWidget::new(MetricKind::RamUsage);
    assert_eq!(ram.kind(), MetricKind::RamUsage);
    assert_eq!(ram.state().text(), "--/--");
    assert_eq!(ram.state().color(), [255, 200, 50, 255]);
    assert!(ram.is_dynamic());
    assert_eq!(
        ram.capabilities(),
        WidgetCapabilities { color: true, font: true, text: false }
    );
    assert!(ram.show_reading(Some("7.9/31.2 GB".to_string())));
    assert_eq!(ram.state().text(), "7.9/31.2 GB");
    assert!(!ram.show_reading(Some("7.9/31.2 GB".to_string())));
    assert!(ram.show_reading(None));
    assert_eq!(ram.state().text(), "N/A");

    let cpu = MetricWidget::new(MetricKind::CpuTemp);
    assert_eq!(cpu.state().text(), "--");
    assert_eq!(cpu.state().color(), [255, 80, 60, 255]);
    assert_eq!(cpu.settings().text, None);
}

#[test]
fn clock_and_date_show_what_the_host_read() {
    let mut clock = Clock::new();
    assert!(clock.show("--:--:--".to_string()));
    assert_eq!(clock.state().text(), "--:--:--");
    assert!(!clock.show("--:--:--".to_string()));
    let mut date = DateWidget::new();
    assert!(date.show("----------".to_string()));
    assert_eq!(date.state().text(), "----------");
}

#[test]
fn active_widget_is_resized_moved_and_reset_within_the_lcd() {
    let mut layers: WidgetLayers<u32> = WidgetLayers::new();
    let res = Resolution::new(240, 240);
    let text = spec_by_type_id("free_text").unwrap();
    let id = layers.add_widget(&text, 1, res);
    assert!(!layers.resize_active_widget((100, 100), res));
    assert!(!layers.move_active_widget((5, 5), res));
    assert!(!layers.reset_active_widget(res));
    assert!(!layers.active_widget_can_reset(res));
    assert_eq!(layers.active_widget_size_label(), "");

    layers.select_layer(LayerSelection::Widget(id));
    assert!(!layers.active_widget_can_reset(res));
    assert!(layers.resize_active_widget((4, 1000), res));
    assert_eq!(layers.active_widget_layer().unwrap().size, (10, 240));
    assert!(layers.move_active_widget((-1000, 1000), res));
    assert_eq!(layers.active_widget_layer().unwrap().position, (0, 230));
    assert!(layers.move_active_widget((3, -30), res));
    assert_eq!(layers.active_widget_layer().unwrap().position, (3, 200));
    assert!(layers.active_widget_can_reset(res));
    assert!(layers.reset_active_widget(res));
    let layer = layers.active_widget_layer().unwrap();
    assert_eq!((layer.position, layer.size), ((80, 106), (80, 28)));
    assert!(!layers.reset_active_widget(res));
    assert!(!layers.active_widget_can_reset(res));

    let tiny = Resolution::new(4, 4);
    assert!(layers.resize_active_widget((50, 3), tiny));
    assert_eq!(layers.active_widget_layer().unwrap().size, (10, 10));
}

#[test]
fn editing_the_active_widget_keeps_its_layer() {
    let mut layers: WidgetLayers<u32> = WidgetLayers::new();
    let res = Resolution::new(240, 240);
    let text = spec_by_type_id("free_text").unwrap();
    let a = layers.add_widget(&text, 1, res);
    let b = layers.add_widget(&text, 2, res);
    assert!(!layers.edit_active_widget(|w| w + 10));
    layers.select_layer(LayerSelection::Widget(a));
    assert!(layers.set_active_widget_opacity(90));
    assert!(layers.edit_active_widget(|w| w + 10));
    let widgets: Vec<(WidgetId, u32, u8)> =
        layers.layers().iter().map(|l| (l.id, l.widget, l.opacity)).collect();
    assert_eq!(widgets, vec![(a, 11, 90), (b, 2, 255)]);
    assert!(layers.edit_widget(b, |w| w * 7));
    assert!(!layers.edit_widget(WidgetId(99), |w| w * 7));
    let widgets: Vec<u32> = layers.layers().iter().map(|l| l.widget).collect();
    assert_eq!(widgets, vec![11, 14]);
    assert_eq!(layers.active_layer(), LayerSelection::Widget(a));
}

#[test]
fn clock_and_date_ticks_show_the_time_and_date() {
    let mut clock = Clock::new();
    clock.show("--:--:--".to_string());
    assert!(clock.tick());
    let t: Vec<char> = clock.state().text().chars().collect();
    assert_eq!(t.len(), 8);
    assert_eq!((t[2], t[5]), (':', ':'));
    assert!([0, 1, 3, 4, 6, 7].iter().all(|&i| t[i].is_ascii_digit()));

    let mut date = DateWidget::new();
    date.show("----------".to_string());
    assert!(date.tick());
    let d: Vec<char> = date.state().text().chars().collect();
    let months = ["Jan", "Feb", "Mar", "Apr", "May", "Jun", "Jul", "Aug", "Sep", "Oct", "Nov", "Dec"];
    assert!(months.contains(&d[..3].iter().collect::<String>().as_str()));
    assert_eq!((d[3], d[6], d[7]), (' ', ',', ' '));
    assert!(d[4].is_ascii_digit() && d[5].is_ascii_digit());
    assert!(d.len() >= 12 && d[9..].iter().all(|c| c.is_ascii_digit()));
}
