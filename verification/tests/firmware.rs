use mchose::firmware::{decode_firmware, FirmwareVersion};

const DONGLE: &[u8] = &[0xAA, 0x01, 0x00, 0x00, 0x01, 0x02, 0xFF, 0x25];
const HEADSET: &[u8] = &[0xAA, 0x01, 0x00, 0x00, 0x03, 0x06, 0xFF, 0x25];

#[test]
fn decodifica_os_pacotes_reais_do_hardware() {
    let d = decode_firmware(DONGLE).expect("pacote real do dongle");
    assert_eq!(d.bytes, [0x00, 0x00, 0x01, 0x02]);
    assert_eq!(d.vendor_string(), "0012");

    let h = decode_firmware(HEADSET).expect("pacote real do fone");
    assert_eq!(h.bytes, [0x00, 0x00, 0x03, 0x06]);
    assert_eq!(h.vendor_string(), "0036");
}

#[test]
fn prefixo_errado_e_rejeitado() {
    assert!(decode_firmware(&[0x01, 0x00, 0x00, 0x01, 0x02]).is_err());
    assert!(decode_firmware(&[0xAA, 0x02, 0x00, 0x00, 0x01, 0x02]).is_err());
    assert!(decode_firmware(&[0x55, 0x65, 0x46, 0x02]).is_err());
}

#[test]
fn firmware_buffers_curtos_nao_entram_em_panico() {
    for n in 0..6usize {
        assert!(decode_firmware(&DONGLE[..n]).is_err(), "n = {n}");
    }
    assert!(decode_firmware(&DONGLE[..6]).is_ok());
}

#[test]
fn byte_acima_de_nove_mostra_por_que_a_forma_textual_nao_ordena() {
    let v = decode_firmware(&[0xAA, 0x01, 0x00, 0x00, 0x00, 0xFF]).expect("prefixo valido");
    assert_eq!(v.bytes, [0x00, 0x00, 0x00, 0xFF]);
    assert_eq!(v.vendor_string(), "000255");
}

#[test]
fn rejeicao_do_canal_de_firmware_carrega_so_os_seis_primeiros_bytes() {
    let buf = [0xAA, 0x02, 0x00, 0x00, 0x01, 0x02, 0xFF, 0x25];
    let e = decode_firmware(&buf).expect_err("marca errada");
    assert_eq!(e.rejected, Some(&buf[..6]));
    let e = decode_firmware(&[0x55, 0x65, 0x46, 0x02]).expect_err("outro canal");
    assert_eq!(e.rejected, None);
    let curto = [0xAA, 0x01, 0x00];
    assert_eq!(decode_firmware(&curto).expect_err("curto").rejected, Some(&curto[..]));
}

#[test]
fn forma_textual_de_cada_faixa_de_byte() {
    assert_eq!(FirmwareVersion::new([0, 9, 10, 99]).vendor_string(), "091099");
    assert_eq!(FirmwareVersion::new([100, 200, 255, 1]).vendor_string(), "1002002551");
}
