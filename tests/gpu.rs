use mondis::gpu::{gpu_model_name, gpu_name_for_card, gpu_name_from_ids, gpu_name_from_lspci, lspci_line_gpu_name, vendor_name_of};

const LSPCI: &[u8] = b"00:00.0 Host bridge [0600]: Intel Corporation Device [8086:4660]\n01:00.0 VGA compatible controller [0300]: NVIDIA Corporation GA106 [GeForce RTX 3060 Lite Hash Rate] [10de:2504] (rev a1)\n";

#[test]
fn lspci_names_the_display_controller() {
    assert_eq!(gpu_name_from_lspci(LSPCI).as_deref(), Some("NVIDIA GeForce RTX 3060 Lite Hash Rate"));
}

#[test]
fn lspci_vendor_words() {
    let amd = b"03:00.0 VGA compatible controller [0300]: Advanced Micro Devices, Inc. [AMD/ATI] Navi 23 [1002:73ff]";
    assert_eq!(lspci_line_gpu_name(amd), Some(b"Unknown AMD/ATI".to_vec()));
    let intel = b"00:02.0 Display controller [0380]: Intel Corporation Alder Lake [UHD Graphics] [8086:4680]";
    assert_eq!(lspci_line_gpu_name(intel), Some(b"Intel UHD Graphics".to_vec()));
}

#[test]
fn lspci_without_controller() {
    assert_eq!(gpu_name_from_lspci(b"00:1f.3 Audio device [0403]: Intel [8086:51c8]\n"), None);
    assert_eq!(lspci_line_gpu_name(b"VGA compatible controller: odd ] text ["), None);
}

#[test]
fn names_from_pci_ids() {
    assert_eq!(gpu_model_name(b"0x10de", b"0x2504"), Some(b"RTX 3060".to_vec()));
    assert_eq!(gpu_model_name(b"0x10de", b"0x0000"), None);
    assert_eq!(vendor_name_of(b"0x1002"), Some(b"AMD".to_vec()));
    assert_eq!(gpu_name_from_ids(1, Some((b"0x1002", b"0x73ff"))), "AMD RX 6700 XT");
    assert_eq!(gpu_name_from_ids(2, Some((b"0x8086", b"0x1234"))), "Intel Card 2");
    assert_eq!(gpu_name_from_ids(3, Some((b"0x1af4", b"0x1050"))), "Unknown GPU Card 3");
    assert_eq!(gpu_name_from_ids(0, None), "Card 0");
}

#[test]
fn lspci_name_wins_over_ids() {
    assert_eq!(gpu_name_for_card(1, Some(LSPCI), Some((b"0x1002", b"0x73ff"))), "NVIDIA GeForce RTX 3060 Lite Hash Rate");
    assert_eq!(gpu_name_for_card(1, Some(b"nothing"), Some((b"0x1002", b"0x73ff"))), "AMD RX 6700 XT");
    assert_eq!(gpu_name_for_card(4, None, None), "Card 4");
}
