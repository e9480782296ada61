use vstd::prelude::*;

verus! {

/// A byte that is not the usage id of any LED of the HID "LED" usage page.
#[derive(Clone, Copy, Debug)]
pub struct InvalidId;

/// Every keyboard LED of the USB HID usage tables ("LED" page), by usage id.
#[derive(Clone, Copy, Debug, PartialEq, Eq, Structural)]
pub enum Led {
    NumLock,
    CapsLock,
    ScrollLock,
    Compose,
    Kana,
    Power,
    Shift,
    DoNotDisturb,
    Mute,
    ToneEnable,
    HighCutFilter,
    LowCutFilter,
    EqualizerEnable,
    SoundFieldOn,
    SurroundOn,
    Repeat,
    Stereo,
    SamplingRateDetect,
    Spinning,
    Cav,
    Clv,
    RecordingFormatDetect,
    OffHook,
    Ring,
    MessageWaiting,
    DataMode,
    BatteryOperation,
    BatteryOk,
    BatteryLow,
    Speaker,
    Headset,
    Hold,
    Microphone,
    Coverage,
    NightMode,
    SendCalls,
    CallPickup,
    Conference,
    StandBy,
    CameraOn,
    CameraOff,
    OnLine,
    OffLine,
    Busy,
    Ready,
    PaperOut,
    PaperJam,
    Remote,
    Forward,
    Reverse,
    Stop,
    Rewind,
    FastForward,
    Play,
    Pause,
    Record,
    Error,
    UsageSelectedIndicator,
    UsageInUseIndicator,
    UsageMultiModeIndicator,
    IndicatorOn,
    IndicatorFlash,
    IndicatorSlowBlink,
    IndicatorFastBlink,
    IndicatorOff,
    FlashOnTime,
    SlowBlinkOnTime,
    SlowBlinkOffTime,
    FastBlinkOnTime,
    FastBlinkOffTime,
    UsageIndicatorColor,
    IndicatorRed,
    IndicatorGreen,
    IndicatorAmber,
    GenericIndicator,
    SystemSuspend,
    ExternalPowerConnected,
    IndicatorBlue,
    IndicatorOrange,
    GoodStatus,
    WarningStatus,
    RgbLed,
    RedLedChannel,
    BlueLedChannel,
    GreenLedChannel,
    LedIntensity,
    SystemMicrophoneMute,
    PlayerIndicator,
    Player1,
    Player2,
    Player3,
    Player4,
    Player5,
    Player6,
    Player7,
}

/// The usage id of an LED.
pub open spec fn led_usage_id(led: Led) -> u8 {
    match led {
        Led::NumLock => 0x01,
        Led::CapsLock => 0x02,
        Led::ScrollLock => 0x03,
        Led::Compose => 0x04,
        Led::Kana => 0x05,
        Led::Power => 0x06,
        Led::Shift => 0x07,
        Led::DoNotDisturb => 0x08,
        Led::Mute => 0x09,
        Led::ToneEnable => 0x0A,
        Led::HighCutFilter => 0x0B,
        Led::LowCutFilter => 0x0C,
        Led::EqualizerEnable => 0x0D,
        Led::SoundFieldOn => 0x0E,
        Led::SurroundOn => 0x0F,
        Led::Repeat => 0x10,
        Led::Stereo => 0x11,
        Led::SamplingRateDetect => 0x12,
        Led::Spinning => 0x13,
        Led::Cav => 0x14,
        Led::Clv => 0x15,
        Led::RecordingFormatDetect => 0x16,
        Led::OffHook => 0x17,
        Led::Ring => 0x18,
        Led::MessageWaiting => 0x19,
        Led::DataMode => 0x1A,
        Led::BatteryOperation => 0x1B,
        Led::BatteryOk => 0x1C,
        Led::BatteryLow => 0x1D,
        Led::Speaker => 0x1E,
        Led::Headset => 0x1F,
        Led::Hold => 0x20,
        Led::Microphone => 0x21,
        Led::Coverage => 0x22,
        Led::NightMode => 0x23,
        Led::SendCalls => 0x24,
        Led::CallPickup => 0x25,
        Led::Conference => 0x26,
        Led::StandBy => 0x27,
        Led::CameraOn => 0x28,
        Led::CameraOff => 0x29,
        Led::OnLine => 0x2A,
        Led::OffLine => 0x2B,
        Led::Busy => 0x2C,
        Led::Ready => 0x2D,
        Led::PaperOut => 0x2E,
        Led::PaperJam => 0x2F,
        Led::Remote => 0x30,
        Led::Forward => 0x31,
        Led::Reverse => 0x32,
        Led::Stop => 0x33,
        Led::Rewind => 0x34,
        Led::FastForward => 0x35,
        Led::Play => 0x36,
        Led::Pause => 0x37,
        Led::Record => 0x38,
        Led::Error => 0x39,
        Led::UsageSelectedIndicator => 0x3A,
        Led::UsageInUseIndicator => 0x3B,
        Led::UsageMultiModeIndicator => 0x3C,
        Led::IndicatorOn => 0x3D,
        Led::IndicatorFlash => 0x3E,
        Led::IndicatorSlowBlink => 0x3F,
        Led::IndicatorFastBlink => 0x40,
        Led::IndicatorOff => 0x41,
        Led::FlashOnTime => 0x42,
        Led::SlowBlinkOnTime => 0x43,
        Led::SlowBlinkOffTime => 0x44,
        Led::FastBlinkOnTime => 0x45,
        Led::FastBlinkOffTime => 0x46,
        Led::UsageIndicatorColor => 0x47,
        Led::IndicatorRed => 0x48,
        Led::IndicatorGreen => 0x49,
        Led::IndicatorAmber => 0x4A,
        Led::GenericIndicator => 0x4B,
        Led::SystemSuspend => 0x4C,
        Led::ExternalPowerConnected => 0x4D,
        Led::IndicatorBlue => 0x4E,
        Led::IndicatorOrange => 0x4F,
        Led::GoodStatus => 0x50,
        Led::WarningStatus => 0x51,
        Led::RgbLed => 0x52,
        Led::RedLedChannel => 0x53,
        Led::BlueLedChannel => 0x54,
        Led::GreenLedChannel => 0x55,
        Led::LedIntensity => 0x56,
        Led::SystemMicrophoneMute => 0x57,
        Led::PlayerIndicator => 0x60,
        Led::Player1 => 0x61,
        Led::Player2 => 0x62,
        Led::Player3 => 0x63,
        Led::Player4 => 0x64,
        Led::Player5 => 0x65,
        Led::Player6 => 0x66,
        Led::Player7 => 0x67,
    }
}

/// Whether a byte is the usage id of some LED: 0x01..=0x57 and 0x60..=0x67.
pub open spec fn is_led_usage_id(id: u8) -> bool {
    (0x01 <= id <= 0x57) || (0x60 <= id <= 0x67)
}

impl Led {
    /// Looks an LED up by its usage id.
    pub fn from_id(id: u8) -> (res: Result<Led, InvalidId>)
        ensures
            res is Ok <==> is_led_usage_id(id),
            res matches Ok(led) ==> led_usage_id(led) == id,
    {
        match id {
            0x01 => Ok(Led::NumLock),
            0x02 => Ok(Led::CapsLock),
            0x03 => Ok(Led::ScrollLock),
            0x04 => Ok(Led::Compose),
            0x05 => Ok(Led::Kana),
            0x06 => Ok(Led::Power),
            0x07 => Ok(Led::Shift),
            0x08 => Ok(Led::DoNotDisturb),
            0x09 => Ok(Led::Mute),
            0x0A => Ok(Led::ToneEnable),
            0x0B => Ok(Led::HighCutFilter),
            0x0C => Ok(Led::LowCutFilter),
            0x0D => Ok(Led::EqualizerEnable),
            0x0E => Ok(Led::SoundFieldOn),
            0x0F => Ok(Led::SurroundOn),
            0x10 => Ok(Led::Repeat),
            0x11 => Ok(Led::Stereo),
            0x12 => Ok(Led::SamplingRateDetect),
            0x13 => Ok(Led::Spinning),
            0x14 => Ok(Led::Cav),
            0x15 => Ok(Led::Clv),
            0x16 => Ok(Led::RecordingFormatDetect),
            0x17 => Ok(Led::OffHook),
            0x18 => Ok(Led::Ring),
            0x19 => Ok(Led::MessageWaiting),
            0x1A => Ok(Led::DataMode),
            0x1B => Ok(Led::BatteryOperation),
            0x1C => Ok(Led::BatteryOk),
            0x1D => Ok(Led::BatteryLow),
            0x1E => Ok(Led::Speaker),
            0x1F => Ok(Led::Headset),
            0x20 => Ok(Led::Hold),
            0x21 => Ok(Led::Microphone),
            0x22 => Ok(Led::Coverage),
            0x23 => Ok(Led::NightMode),
            0x24 => Ok(Led::SendCalls),
            0x25 => Ok(Led::CallPickup),
            0x26 => Ok(Led::Conference),
            0x27 => Ok(Led::StandBy),
            0x28 => Ok(Led::CameraOn),
            0x29 => Ok(Led::CameraOff),
            0x2A => Ok(Led::OnLine),
            0x2B => Ok(Led::OffLine),
            0x2C => Ok(Led::Busy),
            0x2D => Ok(Led::Ready),
            0x2E => Ok(Led::PaperOut),
            0x2F => Ok(Led::PaperJam),
            0x30 => Ok(Led::Remote),
            0x31 => Ok(Led::Forward),
            0x32 => Ok(Led::Reverse),
            0x33 => Ok(Led::Stop),
            0x34 => Ok(Led::Rewind),
            0x35 => Ok(Led::FastForward),
            0x36 => Ok(Led::Play),
            0x37 => Ok(Led::Pause),
            0x38 => Ok(Led::Record),
            0x39 => Ok(Led::Error),
            0x3A => Ok(Led::UsageSelectedIndicator),
            0x3B => Ok(Led::UsageInUseIndicator),
            0x3C => Ok(Led::UsageMultiModeIndicator),
            0x3D => Ok(Led::IndicatorOn),
            0x3E => Ok(Led::IndicatorFlash),
            0x3F => Ok(Led::IndicatorSlowBlink),
            0x40 => Ok(Led::IndicatorFastBlink),
            0x41 => Ok(Led::IndicatorOff),
            0x42 => Ok(Led::FlashOnTime),
            0x43 => Ok(Led::SlowBlinkOnTime),
            0x44 => Ok(Led::SlowBlinkOffTime),
            0x45 => Ok(Led::FastBlinkOnTime),
            0x46 => Ok(Led::FastBlinkOffTime),
            0x47 => Ok(Led::UsageIndicatorColor),
            0x48 => Ok(Led::IndicatorRed),
            0x49 => Ok(Led::IndicatorGreen),
            0x4A => Ok(Led::IndicatorAmber),
            0x4B => Ok(Led::GenericIndicator),
            0x4C => Ok(Led::SystemSuspend),
            0x4D => Ok(Led::ExternalPowerConnected),
            0x4E => Ok(Led::IndicatorBlue),
            0x4F => Ok(Led::IndicatorOrange),
            0x50 => Ok(Led::GoodStatus),
            0x51 => Ok(Led::WarningStatus),
            0x52 => Ok(Led::RgbLed),
            0x53 => Ok(Led::RedLedChannel),
            0x54 => Ok(Led::BlueLedChannel),
            0x55 => Ok(Led::GreenLedChannel),
            0x56 => Ok(Led::LedIntensity),
            0x57 => Ok(Led::SystemMicrophoneMute),
            0x60 => Ok(Led::PlayerIndicator),
            0x61 => Ok(Led::Player1),
            0x62 => Ok(Led::Player2),
            0x63 => Ok(Led::Player3),
            0x64 => Ok(Led::Player4),
            0x65 => Ok(Led::Player5),
            0x66 => Ok(Led::Player6),
            0x67 => Ok(Led::Player7),
            _ => Err(InvalidId),
        }
    }

    /// The usage id of the LED.
    pub fn into_id(&self) -> (res: u8)
        ensures
            res == led_usage_id(*self),
            is_led_usage_id(res),
    {
        match self {
            Led::NumLock => 0x01,
            Led::CapsLock => 0x02,
            Led::ScrollLock => 0x03,
            Led::Compose => 0x04,
            Led::Kana => 0x05,
            Led::Power => 0x06,
            Led::Shift => 0x07,
            Led::DoNotDisturb => 0x08,
            Led::Mute => 0x09,
            Led::ToneEnable => 0x0A,
            Led::HighCutFilter => 0x0B,
            Led::LowCutFilter => 0x0C,
            Led::EqualizerEnable => 0x0D,
            Led::SoundFieldOn => 0x0E,
            Led::SurroundOn => 0x0F,
            Led::Repeat => 0x10,
            Led::Stereo => 0x11,
            Led::SamplingRateDetect => 0x12,
            Led::Spinning => 0x13,
            Led::Cav => 0x14,
            Led::Clv => 0x15,
            Led::RecordingFormatDetect => 0x16,
            Led::OffHook => 0x17,
            Led::Ring => 0x18,
            Led::MessageWaiting => 0x19,
            Led::DataMode => 0x1A,
            Led::BatteryOperation => 0x1B,
            Led::BatteryOk => 0x1C,
            Led::BatteryLow => 0x1D,
            Led::Speaker => 0x1E,
            Led::Headset => 0x1F,
            Led::Hold => 0x20,
            Led::Microphone => 0x21,
            Led::Coverage => 0x22,
            Led::NightMode => 0x23,
            Led::SendCalls => 0x24,
            Led::CallPickup => 0x25,
            Led::Conference => 0x26,
            Led::StandBy => 0x27,
            Led::CameraOn => 0x28,
            Led::CameraOff => 0x29,
            Led::OnLine => 0x2A,
            Led::OffLine => 0x2B,
            Led::Busy => 0x2C,
            Led::Ready => 0x2D,
            Led::PaperOut => 0x2E,
            Led::PaperJam => 0x2F,
            Led::Remote => 0x30,
            Led::Forward => 0x31,
            Led::Reverse => 0x32,
            Led::Stop => 0x33,
            Led::Rewind => 0x34,
            Led::FastForward => 0x35,
            Led::Play => 0x36,
            Led::Pause => 0x37,
            Led::Record => 0x38,
            Led::Error => 0x39,
            Led::UsageSelectedIndicator => 0x3A,
            Led::UsageInUseIndicator => 0x3B,
            Led::UsageMultiModeIndicator => 0x3C,
            Led::IndicatorOn => 0x3D,
            Led::IndicatorFlash => 0x3E,
            Led::IndicatorSlowBlink => 0x3F,
            Led::IndicatorFastBlink => 0x40,
            Led::IndicatorOff => 0x41,
            Led::FlashOnTime => 0x42,
            Led::SlowBlinkOnTime => 0x43,
            Led::SlowBlinkOffTime => 0x44,
            Led::FastBlinkOnTime => 0x45,
            Led::FastBlinkOffTime => 0x46,
            Led::UsageIndicatorColor => 0x47,
            Led::IndicatorRed => 0x48,
            Led::IndicatorGreen => 0x49,
            Led::IndicatorAmber => 0x4A,
            Led::GenericIndicator => 0x4B,
            Led::SystemSuspend => 0x4C,
            Led::ExternalPowerConnected => 0x4D,
            Led::IndicatorBlue => 0x4E,
            Led::IndicatorOrange => 0x4F,
            Led::GoodStatus => 0x50,
            Led::WarningStatus => 0x51,
            Led::RgbLed => 0x52,
            Led::RedLedChannel => 0x53,
            Led::BlueLedChannel => 0x54,
            Led::GreenLedChannel => 0x55,
            Led::LedIntensity => 0x56,
            Led::SystemMicrophoneMute => 0x57,
            Led::PlayerIndicator => 0x60,
            Led::Player1 => 0x61,
            Led::Player2 => 0x62,
            Led::Player3 => 0x63,
            Led::Player4 => 0x64,
            Led::Player5 => 0x65,
            Led::Player6 => 0x66,
            Led::Player7 => 0x67,
        }
    }
}


/// The five LEDs of the keyboard's LED output report, by bit offset:
/// NumLock, CapsLock, ScrollLock, Compose, Kana.
pub open spec fn report_led(offset: int) -> Led {
    if offset == 0 {
        Led::NumLock
    } else if offset == 1 {
        Led::CapsLock
    } else if offset == 2 {
        Led::ScrollLock
    } else if offset == 3 {
        Led::Compose
    } else {
        Led::Kana
    }
}

/// Whether bit `offset` is set in an LED output report byte.
pub open spec fn led_bit_set(leds: u8, offset: int) -> bool {
    (1u8 << (offset as u8)) & leds != 0
}

/// The change of the LED at `offset` between two output reports, if any: it went on
/// when its bit is newly set, off when its bit is newly cleared.
pub open spec fn led_change_at(old: u8, new: u8, offset: int) -> Option<(Led, bool)> {
    if (1u8 << (offset as u8)) & (new & !old) != 0 {
        Some((report_led(offset), true))
    } else if (1u8 << (offset as u8)) & (old & !new) != 0 {
        Some((report_led(offset), false))
    } else {
        None
    }
}

/// The changes of the first `n` report LEDs, in bit order.
pub open spec fn led_changes_upto(old: u8, new: u8, n: nat) -> Seq<(Led, bool)>
    decreases n,
{
    if n == 0 {
        Seq::empty()
    } else {
        let prev = led_changes_upto(old, new, (n - 1) as nat);
        match led_change_at(old, new, n - 1) {
            Some(c) => prev.push(c),
            None => prev,
        }
    }
}

/// The state of the first `n` report LEDs, in bit order.
pub open spec fn led_state_upto(leds: u8, n: nat) -> Seq<(Led, bool)>
    decreases n,
{
    if n == 0 {
        Seq::empty()
    } else {
        led_state_upto(leds, (n - 1) as nat).push((report_led(n - 1), led_bit_set(leds, n - 1)))
    }
}

/// Looks up the report LED at a bit offset (0..5) by its usage id (offset + 1).
fn report_led_exec(offset: u8) -> (led: Led)
    requires
        offset < 5,
    ensures
        led == report_led(offset as int),
{
    match Led::from_id(offset + 1) {
        Ok(led) => led,
        Err(_) => Led::NumLock,
    }
}

/// The LEDs that a new LED output report turns on (`true`) or off (`false`),
/// compared with the previous one, for the five report LEDs in bit order.
pub fn led_changes(old: u8, new: u8) -> (res: Vec<(Led, bool)>)
    ensures
        res@ == led_changes_upto(old, new, 5),
{
    let now_on = new & !old;
    let now_off = old & !new;
    let mut res: Vec<(Led, bool)> = Vec::new();
    let mut offset: u8 = 0;
    while offset < 5
        invariant
            offset <= 5,
            now_on == new & !old,
            now_off == old & !new,
            res@ == led_changes_upto(old, new, offset as nat),
        decreases 5 - offset,
    {
        let led = report_led_exec(offset);
        if (1u8 << offset) & now_on != 0 {
            res.push((led, true));
        } else if (1u8 << offset) & now_off != 0 {
            res.push((led, false));
        }
        offset = offset + 1;
    }
    res
}

/// The on/off state of the five report LEDs held in an LED output report byte.
pub fn led_state(leds: u8) -> (res: Vec<(Led, bool)>)
    ensures
        res@ == led_state_upto(leds, 5),
{
    let mut res: Vec<(Led, bool)> = Vec::new();
    let mut offset: u8 = 0;
    while offset < 5
        invariant
            offset <= 5,
            res@ == led_state_upto(leds, offset as nat),
        decreases 5 - offset,
    {
        let led = report_led_exec(offset);
        res.push((led, (1u8 << offset) & leds != 0));
        offset = offset + 1;
    }
    res
}

/// An LED change is reported for offset `o` exactly when the LED's bit differs
/// between the two reports, and it says whether the LED is now on.
pub proof fn lemma_led_change_exact(old: u8, new: u8, offset: int)
    requires
        0 <= offset < 5,
    ensures
        led_change_at(old, new, offset) is Some <==> led_bit_set(old, offset) != led_bit_set(new, offset),
        led_change_at(old, new, offset) matches Some((l, on)) ==> on == led_bit_set(new, offset) && l == report_led(offset),
{
    let o = offset as u8;
    assert(((1u8 << o) & (new & !old) != 0) <==> ((1u8 << o) & new != 0 && (1u8 << o) & old == 0)) by (bit_vector)
        requires o < 5;
    assert(((1u8 << o) & (old & !new) != 0) <==> ((1u8 << o) & old != 0 && (1u8 << o) & new == 0)) by (bit_vector)
        requires o < 5;
}

/// Different LEDs have different usage ids, so an LED's usage id looks up that LED again.
pub proof fn lemma_led_usage_id_injective(a: Led, b: Led)
    ensures
        led_usage_id(a) == led_usage_id(b) ==> a == b,
{
}

/// The announced LED changes are exactly the report LEDs whose bit differs between the
/// old and the new output report, in bit order, each saying whether the LED is now on.
pub proof fn lemma_led_changes_exact(old: u8, new: u8, n: nat)
    requires
        n <= 5,
    ensures
        led_changes_upto(old, new, n).len() <= n,
        forall|o: int|
            0 <= o < n && led_bit_set(old, o) != led_bit_set(new, o) ==> led_changes_upto(old, new, n).contains(
                (report_led(o), led_bit_set(new, o)),
            ),
        forall|k: int|
            0 <= k < led_changes_upto(old, new, n).len() ==> exists|o: int|
                0 <= o < n && led_bit_set(old, o) != led_bit_set(new, o) && (#[trigger] led_changes_upto(old, new, n)[k]).0
                    == report_led(o) && led_changes_upto(old, new, n)[k].1 == led_bit_set(new, o),
    decreases n,
{
    if n > 0 {
        lemma_led_changes_exact(old, new, (n - 1) as nat);
        lemma_led_change_exact(old, new, n - 1);
        let prev = led_changes_upto(old, new, (n - 1) as nat);
        let cur = led_changes_upto(old, new, n);
        assert forall|o: int|
            0 <= o < n && led_bit_set(old, o) != led_bit_set(new, o) implies cur.contains(
                (report_led(o), led_bit_set(new, o)),
            ) by {
            if o < n - 1 {
                assert(prev.contains((report_led(o), led_bit_set(new, o))));
                let k = choose|k: int| 0 <= k < prev.len() && prev[k] == (report_led(o), led_bit_set(new, o));
                assert(cur[k] == prev[k]);
            } else {
                assert(cur[cur.len() - 1] == (report_led(o), led_bit_set(new, o)));
            }
        }
        assert forall|k: int| 0 <= k < cur.len() implies exists|o: int|
            0 <= o < n && led_bit_set(old, o) != led_bit_set(new, o) && (#[trigger] cur[k]).0 == report_led(o)
                && cur[k].1 == led_bit_set(new, o) by {
            if k < prev.len() {
                assert(cur[k] == prev[k]);
                let o = choose|o: int|
                    0 <= o < n - 1 && led_bit_set(old, o) != led_bit_set(new, o) && (#[trigger] prev[k]).0 == report_led(o)
                        && prev[k].1 == led_bit_set(new, o);
                assert(cur[k].0 == report_led(o) && cur[k].1 == led_bit_set(new, o));
            } else {
                assert(cur[k].0 == report_led(n - 1) && cur[k].1 == led_bit_set(new, n - 1));
            }
        }
    }
}

} // verus!
