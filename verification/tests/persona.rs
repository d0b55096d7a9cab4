use servo_ws_net::persona::{self, Persona};

fn sample(platform: &str) -> Persona {
    Persona {
        platform: platform.to_string(),
        app_version: "5.0 (X11)".to_string(),
        hardware_concurrency: 8,
        device_memory_gb: Some(4),
        color_depth: 24,
        gpu_vendor: "vendor".to_string(),
        gpu_renderer: "renderer".to_string(),
        gpu_unmasked_vendor: "unmasked vendor".to_string(),
        gpu_unmasked_renderer: "unmasked renderer".to_string(),
        noise_seed: 0xfeed,
    }
}

#[test]
fn an_empty_slot_reads_as_none() {
    assert!(persona::get(&None).is_none());
}

#[test]
fn the_last_persona_set_is_read_back_whole() {
    let mut slot = None;
    persona::set(&mut slot, sample("Win32"));
    persona::set(&mut slot, sample("Linux x86_64"));
    let read = persona::get(&slot).unwrap();
    assert_eq!(read.platform, "Linux x86_64");
    assert_eq!(read.app_version, "5.0 (X11)");
    assert_eq!(read.hardware_concurrency, 8);
    assert_eq!(read.device_memory_gb, Some(4));
    assert_eq!(read.color_depth, 24);
    assert_eq!(read.gpu_vendor, "vendor");
    assert_eq!(read.gpu_renderer, "renderer");
    assert_eq!(read.gpu_unmasked_vendor, "unmasked vendor");
    assert_eq!(read.gpu_unmasked_renderer, "unmasked renderer");
    assert_eq!(read.noise_seed, 0xfeed);
    // Reading leaves the slot as it was.
    assert_eq!(persona::get(&slot).unwrap().platform, "Linux x86_64");
}
