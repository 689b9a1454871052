use rpx_core::catalog::CatalogError;
use rpx_core::catalog::GpuAvailability;
use rpx_core::catalog::GpuCatalog;
use rpx_core::catalog::GpuEntry;
use rpx_core::provider::ProviderKind;

/// Dollars per hour as picodollars per second.
fn per_sec(dollars_per_hour_millis: u64) -> u64 {
    dollars_per_hour_millis * 1_000_000_000 / 3600
}

fn avail(provider: &str, id: &str, price_per_sec: u64) -> GpuAvailability {
    GpuAvailability {
        provider: provider.to_string(),
        provider_gpu_id: id.to_string(),
        price_per_sec,
        regions: vec!["us-east".to_string()],
    }
}

fn gpu(id: &str, name: &str, vram_gb: u32, availability: Vec<GpuAvailability>) -> GpuEntry {
    GpuEntry {
        id: id.to_string(),
        name: name.to_string(),
        vram_gb,
        architecture: "test".to_string(),
        availability,
    }
}

fn test_catalog() -> GpuCatalog {
    GpuCatalog {
        gpu: vec![
            gpu("rtx-a4000", "NVIDIA RTX A4000", 16, vec![avail("runpod", "NVIDIA RTX A4000", per_sec(170))]),
            gpu(
                "l4",
                "NVIDIA L4",
                24,
                vec![
                    avail("runpod", "NVIDIA L4", per_sec(430)),
                    avail("vastai", "L4", per_sec(300)),
                ],
            ),
            gpu("a40", "NVIDIA A40", 48, vec![avail("runpod", "NVIDIA A40", per_sec(690))]),
            gpu(
                "a100-80gb",
                "NVIDIA A100 80GB PCIe",
                80,
                vec![avail("runpod", "NVIDIA A100 80GB PCIe", per_sec(1640))],
            ),
            gpu("h100-80gb", "NVIDIA H100 80GB HBM3", 80, vec![avail("runpod", "NVIDIA H100 80GB HBM3", per_sec(2990))]),
            gpu("mi300x", "AMD MI300X", 192, vec![avail("lambda", "MI300X", per_sec(100))]),
        ],
    }
}

#[test]
fn select_cheapest_for_small_model() {
    let catalog = test_catalog();
    // 3B fp16 ≈ 8 GB VRAM needed
    let selection = catalog
        .select_cheapest(8_000, Some(ProviderKind::RunPod), None, 1)
        .ok()
        .unwrap();
    // Should pick cheapest GPU with >= 8 GB
    assert!(selection.vram_gb >= 8);
    assert_eq!(selection.provider, ProviderKind::RunPod);
    assert_eq!(selection.gpu_id, "rtx-a4000");
}

#[test]
fn select_cheapest_for_large_model() {
    let catalog = test_catalog();
    // 70B fp16 ≈ 182 GB VRAM needed — no single GPU on RunPod has this
    let result = catalog.select_cheapest(182_000, Some(ProviderKind::RunPod), None, 1);
    assert!(result.is_err());
}

#[test]
fn select_cheapest_with_multi_gpu() {
    let catalog = test_catalog();
    // 182 GB needed / 4 GPUs = 45.5 GB per GPU
    let selection = catalog
        .select_cheapest(182_000, Some(ProviderKind::RunPod), None, 4)
        .ok()
        .unwrap();
    assert!(selection.vram_gb as f64 >= 45.5);
    assert_eq!(selection.gpu_id, "a40");
    // Prices cover all four GPUs.
    assert_eq!(selection.price_per_sec, 4 * per_sec(690));
    assert_eq!(selection.price_per_hour, 4 * per_sec(690) * 3600);
}

#[test]
fn select_cheapest_respects_price_cap() {
    let catalog = test_catalog();
    // $0.01/hr is extremely low — nothing is that cheap
    let cap = 10_000_000_000u64;
    let result = catalog.select_cheapest(8_000, Some(ProviderKind::RunPod), Some(cap), 1);
    match result {
        Err(_) => {}
        Ok(sel) => assert!(sel.price_per_hour <= cap),
    }
    // Under a cap of $0.50/hr, the L4 is the only RunPod GPU with 20 GB.
    let sel = catalog
        .select_cheapest(20_000, Some(ProviderKind::RunPod), Some(500_000_000_000), 1)
        .ok()
        .unwrap();
    assert_eq!(sel.gpu_id, "l4");
    assert!(catalog
        .select_cheapest(30_000, Some(ProviderKind::RunPod), Some(500_000_000_000), 1)
        .is_err());
}

#[test]
fn select_cheapest_sorts_by_price() {
    let catalog = test_catalog();
    let cheap = catalog
        .select_cheapest(8_000, Some(ProviderKind::RunPod), None, 1)
        .ok()
        .unwrap();
    let expensive = catalog
        .select_cheapest(50_000, Some(ProviderKind::RunPod), None, 1)
        .ok()
        .unwrap();
    assert!(cheap.price_per_sec <= expensive.price_per_sec);
    assert_eq!(expensive.gpu_id, "a100-80gb");
}

#[test]
fn select_cheapest_without_filter_crosses_providers() {
    let catalog = test_catalog();
    // The unknown provider "lambda" never offers; vast.ai's L4 beats RunPod.
    let sel = catalog.select_cheapest(20_000, None, None, 1).ok().unwrap();
    assert_eq!(sel.gpu_id, "l4");
    assert_eq!(sel.provider, ProviderKind::VastAi);
    assert_eq!(sel.provider_gpu_id, "L4");
    // No GPU count, no offer.
    assert!(catalog.select_cheapest(1, None, None, 0).is_err());
}

#[test]
fn no_suitable_gpu_message() {
    let catalog = test_catalog();
    match catalog.select_cheapest(182_000, Some(ProviderKind::RunPod), None, 1) {
        Err(e) => {
            assert_eq!(e.to_string(), "no GPU found with >= 182.0 GB VRAM on RunPod");
        }
        Ok(_) => panic!("no GPU has 182 GB"),
    }
    let e = CatalogError::NoSuitableGpu { vram_needed_mgb: 33_849, provider_filter: None };
    assert_eq!(e.to_string(), "no GPU found with >= 33.8 GB VRAM");
    let e = CatalogError::NoSuitableGpu { vram_needed_mgb: 33_850, provider_filter: None };
    assert_eq!(e.to_string(), "no GPU found with >= 33.9 GB VRAM");
}

#[test]
fn find_gpu_by_id() {
    let catalog = test_catalog();
    let gpu = catalog.find_gpu("a100-80gb", ProviderKind::RunPod);
    assert!(gpu.is_some());
    let gpu = gpu.unwrap();
    assert_eq!(gpu.vram_gb, 80);
    assert_eq!(gpu.provider, ProviderKind::RunPod);
    assert_eq!(gpu.price_per_sec, per_sec(1640));
}

#[test]
fn find_gpu_returns_none_for_unknown() {
    let catalog = test_catalog();
    assert!(catalog.find_gpu("nonexistent", ProviderKind::RunPod).is_none());
    // Known GPU, but not offered by that provider.
    assert!(catalog.find_gpu("a40", ProviderKind::VastAi).is_none());
    assert_eq!(catalog.find_gpu("l4", ProviderKind::VastAi).unwrap().provider_gpu_id, "L4");
}
