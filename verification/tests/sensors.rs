use coolcooler::sensors::{
    first_reporting_gpu, is_cpu_temp_label, is_drm_card_name, is_hotspot_or_memory_label,
    is_normal_gpu_temp_label, merge_gpu_metrics, select_amd_gpu_temp, temp_input_id, GpuMetrics,
};

#[test]
fn normal_gpu_temp_label_excludes_hotspot_sensors() {
    assert!(is_normal_gpu_temp_label("amdgpu edge"));
    assert!(is_normal_gpu_temp_label("gpu temp"));
    assert!(!is_normal_gpu_temp_label("amdgpu junction"));
    assert!(!is_normal_gpu_temp_label("gpu hotspot"));
    assert!(!is_normal_gpu_temp_label("amdgpu mem"));
}

#[test]
fn hotspot_and_memory_labels() {
    assert!(is_hotspot_or_memory_label("junction"));
    assert!(is_hotspot_or_memory_label("gpu hot spot"));
    assert!(is_hotspot_or_memory_label("memory"));
    assert!(!is_hotspot_or_memory_label("edge"));
    assert!(!is_hotspot_or_memory_label(""));
}

#[test]
fn cpu_temperature_labels() {
    assert!(is_cpu_temp_label("core 0"));
    assert!(is_cpu_temp_label("k10temp tctl"));
    assert!(is_cpu_temp_label("cpu package"));
    assert!(!is_cpu_temp_label("nvme composite"));
}

#[test]
fn drm_card_names() {
    assert!(is_drm_card_name("card0"));
    assert!(is_drm_card_name("card12"));
    assert!(!is_drm_card_name("card"));
    assert!(!is_drm_card_name("card0-DP-1"));
    assert!(!is_drm_card_name("renderD128"));
}

#[test]
fn hwmon_temperature_inputs() {
    assert_eq!(temp_input_id("temp1_input").as_deref(), Some("1"));
    assert_eq!(temp_input_id("temp12_input").as_deref(), Some("12"));
    assert_eq!(temp_input_id("temp1_label"), None);
    assert_eq!(temp_input_id("temp_input"), None);
    assert_eq!(temp_input_id("tempx_input"), None);
    assert_eq!(temp_input_id("fan1_input"), None);
}

fn reading(id: &str, label: &str) -> (String, String) {
    (id.to_string(), label.to_string())
}

#[test]
fn amd_temperature_prefers_edge_over_junction() {
    // temp1 "edge" (53 °C) and temp2 "junction" (96 °C): the edge sensor wins.
    let readings = vec![reading("1", "edge"), reading("2", "junction")];
    assert_eq!(select_amd_gpu_temp(&readings), Some(0));
    let readings = vec![reading("2", "junction"), reading("3", "EDGE")];
    assert_eq!(select_amd_gpu_temp(&readings), Some(1));
}

#[test]
fn amd_temperature_fallback_order() {
    let readings = vec![reading("2", "mem"), reading("1", "")];
    assert_eq!(select_amd_gpu_temp(&readings), Some(1));
    let readings = vec![reading("2", "GPU"), reading("3", "gpu other")];
    assert_eq!(select_amd_gpu_temp(&readings), Some(0));
    let readings = vec![reading("4", ""), reading("5", "")];
    assert_eq!(select_amd_gpu_temp(&readings), Some(0));
    let readings = vec![reading("1", "junction"), reading("2", "memory")];
    assert_eq!(select_amd_gpu_temp(&readings), None);
    assert_eq!(select_amd_gpu_temp(&Vec::new()), None);
}

#[test]
fn gpu_sources_in_order_of_preference() {
    let nvidia = GpuMetrics { temp: Some(60), usage: None };
    let amd = GpuMetrics { temp: Some(50), usage: Some(10) };
    let merged = merge_gpu_metrics(Some(nvidia), Some(amd), Some(40));
    assert_eq!((merged.temp, merged.usage), (Some(60), None));
    let merged = merge_gpu_metrics(None, Some(amd), Some(40));
    assert_eq!((merged.temp, merged.usage), (Some(50), Some(10)));
    let merged = merge_gpu_metrics(None, Some(GpuMetrics { temp: None, usage: Some(3) }), Some(40));
    assert_eq!((merged.temp, merged.usage), (Some(40), Some(3)));
    let merged = merge_gpu_metrics::<u32>(None, None, None);
    assert_eq!((merged.temp, merged.usage), (None, None));
}

#[test]
fn first_amd_card_that_reports_wins() {
    let cards = vec![
        GpuMetrics { temp: None, usage: None },
        GpuMetrics { temp: Some(61), usage: Some(17) },
        GpuMetrics { temp: Some(70), usage: None },
    ];
    let m = first_reporting_gpu(&cards);
    assert_eq!((m.temp, m.usage), (Some(61), Some(17)));
    let m = first_reporting_gpu::<u32>(&vec![GpuMetrics { temp: None, usage: None }]);
    assert_eq!((m.temp, m.usage), (None, None));
}
