use mchose::request::{
    battery_request, firmware_request, FirmwareTarget, BATTERY_RESPONSE_TIMEOUT_MS,
    FEATURE_ROUNDTRIP_WAIT_MS, REPORT_LEN,
};

#[test]
fn request_de_bateria_tem_64_bytes_e_o_prefixo_certo() {
    let req = battery_request();
    assert_eq!(req.len(), 64);
    assert_eq!(&req[..3], &[0x55, 0x65, 0x01]);
    assert!(req[3..].iter().all(|b| *b == 0));
}

#[test]
fn request_de_firmware_distingue_dongle_de_fone() {
    let dongle = firmware_request(FirmwareTarget::Dongle);
    let headset = firmware_request(FirmwareTarget::Headset);
    assert_eq!(dongle.len(), 64);
    assert_eq!(headset.len(), 64);
    assert_eq!(&dongle[..3], &[0xAA, 0x01, 0x01]);
    assert_eq!(&headset[..3], &[0xAA, 0x01, 0x00]);
    assert!(dongle[3..].iter().all(|b| *b == 0));
    assert!(headset[3..].iter().all(|b| *b == 0));
}

#[test]
fn constantes_de_tempo_sao_as_do_protocolo() {
    assert_eq!(
        std::time::Duration::from_millis(FEATURE_ROUNDTRIP_WAIT_MS),
        core::time::Duration::from_millis(300)
    );
    assert_eq!(
        std::time::Duration::from_millis(BATTERY_RESPONSE_TIMEOUT_MS),
        core::time::Duration::from_secs(2)
    );
}

#[test]
fn todo_request_tem_o_tamanho_do_report() {
    assert_eq!(battery_request().len(), REPORT_LEN);
    assert_eq!(firmware_request(FirmwareTarget::Dongle).len(), REPORT_LEN);
}
