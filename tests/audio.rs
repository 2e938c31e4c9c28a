use rustboy::apu::AudioDevice;
use rustboy::noise::NoiseGen;
use rustboy::square1::{Square1Gen, Square1Regs};
use rustboy::wave::WaveGen;

fn triggered_square(regs: &mut Square1Regs, rate: usize) -> Square1Gen {
    let mut g = Square1Gen::new(rate);
    assert!(regs.triggered());
    g.init_signal(regs);
    g
}

#[test]
fn square1_trigger() {
    let mut regs = Square1Regs::new();
    regs.write_nrx0(0x00);
    regs.write_nrx1(0x80);
    regs.write_nrx2(0xF0);
    regs.write_nrx3(0x00);
    regs.write_nrx4(0x87);
    let mut g = triggered_square(&mut regs, 44100);
    assert_eq!(regs.read_nrx4(), 0x07);
    assert_eq!(regs.read_nrx0(), 0x00);
    let mut buf = vec![0u8; 44100];
    g.generate_signal(&mut buf, 0, 44100);
    // 131072 / (2048 - 0x700) = 512 Hz: 86 samples per period, 43 of them high.
    for (i, s) in buf.iter().enumerate() {
        let expected = if i % 86 < 43 { 15 } else { 0 };
        assert_eq!(*s, expected, "sample {}", i);
    }
}

#[test]
fn envelope_rises_to_fifteen() {
    let mut regs = Square1Regs::new();
    regs.write_nrx1(0x80);
    regs.write_nrx2(0x0B);
    regs.write_nrx4(0x87);
    let mut g = triggered_square(&mut regs, 44100);
    let k = 44100 * 3 / 64;
    assert_eq!(g.amplitude(), 0);
    let mut buf = vec![0u8; 1];
    for n in 1..=(16 * k) {
        g.generate_signal(&mut buf, 0, 1);
        let expected = std::cmp::min(15, n / k) as u8;
        assert_eq!(g.amplitude(), expected, "after {} samples", n);
    }
}

#[test]
fn envelope_falls_to_zero() {
    let mut regs = Square1Regs::new();
    regs.write_nrx2(0x21);
    regs.write_nrx4(0x80);
    let mut g = triggered_square(&mut regs, 44100);
    let k = 44100 / 64;
    let mut buf = vec![0u8; 3 * k];
    g.generate_signal(&mut buf, 0, 3 * k);
    assert_eq!(g.amplitude(), 0);
}

#[test]
fn length_silences_channel() {
    let mut regs = Square1Regs::new();
    regs.write_nrx1(0x80 | 0x30);
    regs.write_nrx2(0xF0);
    regs.write_nrx4(0xC7);
    let mut g = triggered_square(&mut regs, 44100);
    let len = 44100 * (64 - 0x30) / 256;
    assert_eq!(g.length(), Some(len));
    let mut buf = vec![0u8; 8000];
    g.generate_signal(&mut buf, 0, 8000);
    assert!(buf[..len].iter().any(|s| *s == 15));
    assert!(buf[len..].iter().all(|s| *s == 0));
}

#[test]
fn generate_signal_fills_only_the_slice() {
    let mut regs = Square1Regs::new();
    regs.write_nrx1(0xC0);
    regs.write_nrx2(0xA0);
    regs.write_nrx4(0x87);
    let mut g = triggered_square(&mut regs, 44100);
    let mut buf = vec![9u8; 100];
    g.generate_signal(&mut buf, 10, 20);
    assert!(buf[..10].iter().all(|s| *s == 9));
    assert!(buf[20..].iter().all(|s| *s == 9));
    assert!(buf[10..20].iter().all(|s| *s == 10));
}

#[test]
fn sweep_raises_frequency() {
    let mut regs = Square1Regs::new();
    regs.write_nrx0(0x11);
    regs.write_nrx1(0x80);
    regs.write_nrx2(0xF0);
    regs.write_nrx4(0x87);
    let mut g = triggered_square(&mut regs, 44100);
    let mut buf = vec![0u8; 20000];
    g.generate_signal(&mut buf, 0, 20000);
    // The first sweep (after 44100 / 128 = 344 samples) takes 512 Hz to 768 Hz:
    // periods of 44100 / 768 = 57 samples until the next sweep at sample 688.
    let rises: Vec<usize> = (401..688).filter(|i| buf[*i] == 15 && buf[*i - 1] == 0).collect();
    assert!(rises.len() >= 2);
    assert_eq!(rises[1] - rises[0], 57);
    // Rising past the highest frequency silences the channel.
    assert!(buf[6000..].iter().all(|s| *s == 0));
}

#[test]
fn wave_channel_plays_table() {
    let mut g = WaveGen::new(44100);
    // 65536 / 2048 = 32 table cycles per second: the first samples read entry 0.
    g.init_signal(0x80, 0x00, 0x20, 0x00, 0x80);
    let table: Vec<u8> = vec![0xF0; 16];
    let mut buf = vec![0u8; 4];
    g.generate_signal(&table, &mut buf, 0, 4);
    assert_eq!(buf[0], 0xF);
    let mut muted = WaveGen::new(44100);
    muted.init_signal(0x80, 0x00, 0x00, 0x00, 0x80);
    let mut buf2 = vec![1u8; 4];
    muted.generate_signal(&table, &mut buf2, 0, 4);
    assert!(buf2.iter().all(|s| *s == 0));
}

#[test]
fn noise_channel_output() {
    let mut g = NoiseGen::new(44100);
    g.init_signal(0x00, 0xF0, 0x00, 0x80);
    let mut buf = vec![0u8; 2000];
    g.generate_signal(&mut buf, 0, 2000);
    assert!(buf.iter().any(|s| *s == 15));
    assert!(buf.iter().any(|s| *s == 0));
    assert!(buf.iter().all(|s| *s == 0 || *s == 15));
}

#[test]
fn audio_device_registers() {
    let mut a = AudioDevice::new(48000);
    assert_eq!(a.read(0xFF24), 0x77);
    assert_eq!(a.read(0xFF26), 0x80);
    a.write(0xFF11, 0x80);
    a.write(0xFF12, 0xF0);
    a.write(0xFF14, 0x87);
    assert_eq!(a.read(0xFF14), 0x07);
    assert_eq!(a.read(0xFF11), 0x80);
    a.write(0xFF30, 0x12);
    assert_eq!(a.read(0xFF30), 0x12);
    a.send_update(70224);
    let out = a.frame_update();
    assert_eq!(out.len(), 2 * (48000 * 70224 / 4194304));
    assert!(out.iter().any(|s| *s != 0));
}

#[test]
fn audio_master_off_is_silent() {
    let mut a = AudioDevice::new(44100);
    a.write(0xFF26, 0x00);
    a.write(0xFF12, 0xF0);
    a.write(0xFF14, 0x87);
    a.send_update(70224);
    let out = a.frame_update();
    assert!(out.iter().all(|s| *s == 0));
}

#[test]
fn mixer_routes_and_scales() {
    let mut a = AudioDevice::new(44100);
    a.write(0xFF24, 0x30);
    a.write(0xFF25, 0x10);
    a.write(0xFF11, 0x80);
    a.write(0xFF12, 0xF0);
    a.write(0xFF14, 0x87);
    a.send_update(70224);
    let out = a.frame_update();
    // Channel 1 is high (15) for the first 43 samples; it is routed left
    // only, at master volume (3 + 1) / 8.
    assert_eq!(out[0], 15 * 4 / 8);
    assert_eq!(out[1], 0);
    assert_eq!(out[2 * 50], 0);
}
