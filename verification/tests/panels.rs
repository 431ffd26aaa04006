use telemetry_simulator::app::{App, Args};
use telemetry_simulator::sensors::{SensorData, SensorWindow};
use telemetry_simulator::ui::{averages_title, graph_tail_start, status_text, SensorPanel};

fn store(names: &[&str]) -> SensorData<()> {
    let mut data = SensorData::new();
    for n in names {
        data.insert(SensorWindow { sensor: n.to_string(), values: () });
    }
    data
}

#[test]
fn panels_for_sensors_with_data_in_order() {
    let mut app = App::new(Args { count: 4, delay: 1000 });
    app.selected_sensor = 2;
    let data = store(&["sensor-3", "sensor-0", "sensor-2", "sensor-9", "other"]);
    assert_eq!(
        app.sensor_panels(&data),
        vec![
            SensorPanel { index: 0, selected: false },
            SensorPanel { index: 2, selected: true },
            SensorPanel { index: 3, selected: false },
        ]
    );
}

#[test]
fn selected_sensor_without_data_highlights_nothing() {
    let mut app = App::new(Args { count: 3, delay: 1000 });
    app.selected_sensor = 1;
    let data = store(&["sensor-0", "sensor-2"]);
    let panels = app.sensor_panels(&data);
    assert_eq!(panels.len(), 2);
    assert!(panels.iter().all(|p| !p.selected));
}

#[test]
fn no_sensors_no_panels() {
    let app = App::new(Args { count: 0, delay: 1000 });
    assert!(app.sensor_panels(&store(&["sensor-0"])).is_empty());
}

#[test]
fn graph_shows_last_readings_that_fit() {
    assert_eq!(graph_tail_start(100, 42), 60);
    assert_eq!(graph_tail_start(40, 42), 0);
    assert_eq!(graph_tail_start(10, 42), 0);
    assert_eq!(graph_tail_start(5, 2), 5);
    assert_eq!(graph_tail_start(0, 2), 0);
}

#[test]
fn status_text_lines() {
    assert_eq!(
        status_text(1, 2, 4),
        "Press `Esc`, `Ctrl-C` or `q` to stop running.\nData window in minutes: 1\nSelected: 2\nSensor count: 4"
    );
}

#[test]
fn averages_title_names_the_delay() {
    assert_eq!(averages_title(1000), "Last minute averages (query every 1000ms)");
}
