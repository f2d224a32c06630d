use rtop::system_information::ProcessInformation;
use rtop::filter::matches_filter;
use rtop::system_information::disk_label;
use rtop::ui::{column_cores, core_label, cpu_value_color, gauge_color, mem_value_color, percent_label, top_panel_height, GaugeColor};

#[test]
fn gauge_colors() {
    assert_eq!(gauge_color(0), GaugeColor::Green);
    assert_eq!(gauge_color(50), GaugeColor::Green);
    assert_eq!(gauge_color(51), GaugeColor::Yellow);
    assert_eq!(gauge_color(75), GaugeColor::Yellow);
    assert_eq!(gauge_color(76), GaugeColor::Red);
}

#[test]
fn cpu_value_colors() {
    assert_eq!(cpu_value_color(10), GaugeColor::Green);
    assert_eq!(cpu_value_color(11), GaugeColor::Yellow);
    assert_eq!(cpu_value_color(50), GaugeColor::Yellow);
    assert_eq!(cpu_value_color(51), GaugeColor::Red);
}

#[test]
fn memory_value_colors() {
    let mb = 1024 * 1024;
    assert_eq!(mem_value_color(500 * mb + mb - 1), GaugeColor::Green);
    assert_eq!(mem_value_color(501 * mb), GaugeColor::Yellow);
    assert_eq!(mem_value_color(2000 * mb + 5), GaugeColor::Yellow);
    assert_eq!(mem_value_color(2001 * mb), GaugeColor::Red);
}

#[test]
fn labels() {
    assert_eq!(percent_label(0), "0%");
    assert_eq!(percent_label(61), "61%");
    assert_eq!(percent_label(65535), "65535%");
    assert_eq!(core_label(0), "C0");
    assert_eq!(core_label(13), "C13");
    assert_eq!(disk_label("/dev/disk1s1", "/"), "/dev/disk1s1 (/)");
}

#[test]
fn layout_sizes() {
    assert_eq!(top_panel_height(0), 3);
    assert_eq!(top_panel_height(1), 3);
    assert_eq!(top_panel_height(4), 6);
    assert_eq!(top_panel_height(5), 9);
    assert_eq!(column_cores(5, 0), vec![0, 2, 4]);
    assert_eq!(column_cores(5, 1), vec![1, 3]);
    assert_eq!(column_cores(0, 0), Vec::<usize>::new());
}

#[test]
fn filter_matching() {
    let f: Vec<char> = "fox".chars().collect();
    assert!(matches_filter("firefox", &f));
    assert!(!matches_filter("Firefo", &f));
    assert!(!matches_filter("FOX", &f));
    assert!(matches_filter("anything", &Vec::new()));
    assert!(matches_filter("", &Vec::new()));
    assert!(!matches_filter("", &f));
    let g: Vec<char> = "ß€".chars().collect();
    assert!(matches_filter("aß€b", &g));
}

#[test]
fn process_rows() {
    let p = ProcessInformation { pid: 812, name: "Firefox".to_string(), cpu_usage_bits: 4.2f32.to_bits(), memory_usage: 1024 * 1024 * 1024 };
    let row = rtop::ui::process_row(&p);
    assert_eq!(row.pid, "812");
    assert_eq!(row.name, "Firefox");
    assert_eq!(row.cpu, "4.2%");
    assert_eq!(row.cpu_color, GaugeColor::Green);
    assert_eq!(row.memory, "1.0 GB");
    assert_eq!(row.memory_color, GaugeColor::Yellow);
    let q = ProcessInformation { pid: 0, name: String::new(), cpu_usage_bits: 75.9f32.to_bits(), memory_usage: 3 };
    let row = rtop::ui::process_row(&q);
    assert_eq!(row.pid, "0");
    assert_eq!(row.cpu, "75.9%");
    assert_eq!(row.cpu_color, GaugeColor::Red);
    assert_eq!(row.memory, "3 B");
    assert_eq!(row.memory_color, GaugeColor::Green);
}

#[test]
fn filter_titles() {
    assert_eq!(rtop::ui::filter_title(true), "Filter");
    assert_eq!(rtop::ui::filter_title(false), "Filter (f - filter, c - clear)");
}
