use mantis_shooter::hud::{countdown_seconds, dim_buffer, dim_pixel};

#[test]
fn countdown_rounds_up() {
    assert_eq!(countdown_seconds(180), 3);
    assert_eq!(countdown_seconds(179), 3);
    assert_eq!(countdown_seconds(121), 3);
    assert_eq!(countdown_seconds(120), 2);
    assert_eq!(countdown_seconds(1), 1);
    assert_eq!(countdown_seconds(0), 0);
    assert_eq!(countdown_seconds(u32::MAX), u32::MAX / 60 + 1);
}

#[test]
fn dimming_divides_channels_by_three() {
    assert_eq!(dim_pixel(0xFFFFFF), 0x555555);
    assert_eq!(dim_pixel(0xFF123456), 0x06111C);
    assert_eq!(dim_pixel(0x000002), 0);
    let mut buf = vec![0xFFFFFF, 0x030303, 0xC4A46C];
    dim_buffer(&mut buf);
    assert_eq!(buf, vec![0x555555, 0x010101, 0x413624]);
}
