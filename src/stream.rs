use vstd::prelude::*;

use crate::text::{decimal, push_decimal};

verus! {

/// Width and height of a stream, in pixels. The default, -1 by -1, stands for "not set".
#[derive(Clone, Copy, Debug, PartialEq, Eq, Structural)]
pub struct StreamResolution {
    pub width: i32,
    pub height: i32,
}

impl StreamResolution {
    pub fn new(width: i32, height: i32) -> (r: Self)
        ensures
            r.width == width,
            r.height == height,
    {
        Self { width, height }
    }

    /// The resolution as text, such as `640x480px`.
    pub fn to_text(&self) -> (r: String)
        ensures
            r@ == decimal(self.width as int) + seq!['x'] + decimal(self.height as int) + "px"@,
    {
        let mut r = String::new();
        push_decimal(&mut r, self.width as i64);
        r.append("x");
        proof {
            reveal_strlit("x");
        }
        push_decimal(&mut r, self.height as i64);
        r.append("px");
        r
    }
}

impl Default for StreamResolution {
    fn default() -> (r: Self)
        ensures
            r.width == -1,
            r.height == -1,
    {
        Self { width: -1, height: -1 }
    }
}

/// Per-frame metadata that a camera may report; a value the camera did not report is `None`.
#[derive(Clone, Copy, Debug, PartialEq, Eq, Structural)]
pub struct Metadata {
    pub frame_counter: Option<i64>,
    pub frame_timestamp: Option<i64>,
    pub sensor_timestamp: Option<i64>,
    pub actual_exposure: Option<i64>,
    pub gain_level: Option<i64>,
    pub auto_exposure: Option<i64>,
    pub white_balance: Option<i64>,
    pub time_of_arrival: Option<i64>,
    pub temperature: Option<i64>,
    pub backend_timestamp: Option<i64>,
    pub actual_fps: Option<i64>,
    pub laser_power: Option<i64>,
    pub laser_power_mode: Option<i64>,
    pub exposure_priority: Option<i64>,
    pub exposure_roi_left: Option<i64>,
    pub exposure_roi_right: Option<i64>,
    pub exposure_roi_top: Option<i64>,
    pub exposure_roi_bottom: Option<i64>,
    pub brightness: Option<i64>,
    pub contrast: Option<i64>,
    pub saturation: Option<i64>,
    pub sharpness: Option<i64>,
    pub auto_white_balance_temperature: Option<i64>,
    pub backlight_compensation: Option<i64>,
    pub hue: Option<i64>,
    pub gamma: Option<i64>,
    pub manual_white_balance: Option<i64>,
    pub power_line_frequency: Option<i64>,
    pub low_light_compensation: Option<i64>,
    pub frame_emitter_mode: Option<i64>,
    pub frame_led_power: Option<i64>,
    pub raw_frame_size: Option<i64>,
    pub gpio_input_data: Option<i64>,
    pub sequence_name: Option<i64>,
    pub sequence_id: Option<i64>,
    pub sequence_size: Option<i64>,
}

impl Default for Metadata {
    fn default() -> (r: Self)
        ensures
            r.frame_counter is None,
            r.frame_timestamp is None,
            r.sensor_timestamp is None,
            r.actual_exposure is None,
            r.gain_level is None,
            r.auto_exposure is None,
            r.white_balance is None,
            r.time_of_arrival is None,
            r.temperature is None,
            r.backend_timestamp is None,
            r.actual_fps is None,
            r.laser_power is None,
            r.laser_power_mode is None,
            r.exposure_priority is None,
            r.exposure_roi_left is None,
            r.exposure_roi_right is None,
            r.exposure_roi_top is None,
            r.exposure_roi_bottom is None,
            r.brightness is None,
            r.contrast is None,
            r.saturation is None,
            r.sharpness is None,
            r.auto_white_balance_temperature is None,
            r.backlight_compensation is None,
            r.hue is None,
            r.gamma is None,
            r.manual_white_balance is None,
            r.power_line_frequency is None,
            r.low_light_compensation is None,
            r.frame_emitter_mode is None,
            r.frame_led_power is None,
            r.raw_frame_size is None,
            r.gpio_input_data is None,
            r.sequence_name is None,
            r.sequence_id is None,
            r.sequence_size is None,
    {
        Metadata {
            frame_counter: None,
            frame_timestamp: None,
            sensor_timestamp: None,
            actual_exposure: None,
            gain_level: None,
            auto_exposure: None,
            white_balance: None,
            time_of_arrival: None,
            temperature: None,
            backend_timestamp: None,
            actual_fps: None,
            laser_power: None,
            laser_power_mode: None,
            exposure_priority: None,
            exposure_roi_left: None,
            exposure_roi_right: None,
            exposure_roi_top: None,
            exposure_roi_bottom: None,
            brightness: None,
            contrast: None,
            saturation: None,
            sharpness: None,
            auto_white_balance_temperature: None,
            backlight_compensation: None,
            hue: None,
            gamma: None,
            manual_white_balance: None,
            power_line_frequency: None,
            low_light_compensation: None,
            frame_emitter_mode: None,
            frame_led_power: None,
            raw_frame_size: None,
            gpio_input_data: None,
            sequence_name: None,
            sequence_id: None,
            sequence_size: None,
        }
    }
}


/// Codes under which librealsense reports each kind of frame metadata.
pub const METADATA_FRAME_COUNTER: u32 = 0;
pub const METADATA_FRAME_TIMESTAMP: u32 = 1;
pub const METADATA_SENSOR_TIMESTAMP: u32 = 2;
pub const METADATA_ACTUAL_EXPOSURE: u32 = 3;
pub const METADATA_GAIN_LEVEL: u32 = 4;
pub const METADATA_AUTO_EXPOSURE: u32 = 5;
pub const METADATA_WHITE_BALANCE: u32 = 6;
pub const METADATA_TIME_OF_ARRIVAL: u32 = 7;
pub const METADATA_TEMPERATURE: u32 = 8;
pub const METADATA_BACKEND_TIMESTAMP: u32 = 9;
pub const METADATA_ACTUAL_FPS: u32 = 10;
pub const METADATA_LASER_POWER: u32 = 11;
pub const METADATA_LASER_POWER_MODE: u32 = 12;
pub const METADATA_EXPOSURE_PRIORITY: u32 = 13;
pub const METADATA_EXPOSURE_ROI_LEFT: u32 = 14;
pub const METADATA_EXPOSURE_ROI_RIGHT: u32 = 15;
pub const METADATA_EXPOSURE_ROI_TOP: u32 = 16;
pub const METADATA_EXPOSURE_ROI_BOTTOM: u32 = 17;
pub const METADATA_BRIGHTNESS: u32 = 18;
pub const METADATA_CONTRAST: u32 = 19;
pub const METADATA_SATURATION: u32 = 20;
pub const METADATA_SHARPNESS: u32 = 21;
pub const METADATA_AUTO_WHITE_BALANCE_TEMPERATURE: u32 = 22;
pub const METADATA_BACKLIGHT_COMPENSATION: u32 = 23;
pub const METADATA_HUE: u32 = 24;
pub const METADATA_GAMMA: u32 = 25;
pub const METADATA_MANUAL_WHITE_BALANCE: u32 = 26;
pub const METADATA_POWER_LINE_FREQUENCY: u32 = 27;
pub const METADATA_LOW_LIGHT_COMPENSATION: u32 = 28;
pub const METADATA_FRAME_EMITTER_MODE: u32 = 29;
pub const METADATA_FRAME_LED_POWER: u32 = 30;
pub const METADATA_RAW_FRAME_SIZE: u32 = 31;
pub const METADATA_GPIO_INPUT_DATA: u32 = 32;
pub const METADATA_SEQUENCE_NAME: u32 = 33;
pub const METADATA_SEQUENCE_ID: u32 = 34;
pub const METADATA_SEQUENCE_SIZE: u32 = 35;

/// The value reported last under `code` among the `(code, value)` pairs.
pub open spec fn last_value(values: Seq<(u32, i64)>, code: u32) -> Option<i64>
    decreases values.len(),
{
    if values.len() == 0 {
        None
    } else if values.last().0 == code {
        Some(values.last().1)
    } else {
        last_value(values.drop_last(), code)
    }
}

impl Metadata {
    /// Collects reported `(code, value)` pairs into their fields; a code that names no
    /// field is ignored, and of two pairs with one code the later one counts.
    pub fn from(values: &Vec<(u32, i64)>) -> (r: Metadata)
        ensures
            r.frame_counter == last_value(values@, METADATA_FRAME_COUNTER),
            r.frame_timestamp == last_value(values@, METADATA_FRAME_TIMESTAMP),
            r.sensor_timestamp == last_value(values@, METADATA_SENSOR_TIMESTAMP),
            r.actual_exposure == last_value(values@, METADATA_ACTUAL_EXPOSURE),
            r.gain_level == last_value(values@, METADATA_GAIN_LEVEL),
            r.auto_exposure == last_value(values@, METADATA_AUTO_EXPOSURE),
            r.white_balance == last_value(values@, METADATA_WHITE_BALANCE),
            r.time_of_arrival == last_value(values@, METADATA_TIME_OF_ARRIVAL),
            r.temperature == last_value(values@, METADATA_TEMPERATURE),
            r.backend_timestamp == last_value(values@, METADATA_BACKEND_TIMESTAMP),
            r.actual_fps == last_value(values@, METADATA_ACTUAL_FPS),
            r.laser_power == last_value(values@, METADATA_LASER_POWER),
            r.laser_power_mode == last_value(values@, METADATA_LASER_POWER_MODE),
            r.exposure_priority == last_value(values@, METADATA_EXPOSURE_PRIORITY),
            r.exposure_roi_left == last_value(values@, METADATA_EXPOSURE_ROI_LEFT),
            r.exposure_roi_right == last_value(values@, METADATA_EXPOSURE_ROI_RIGHT),
            r.exposure_roi_top == last_value(values@, METADATA_EXPOSURE_ROI_TOP),
            r.exposure_roi_bottom == last_value(values@, METADATA_EXPOSURE_ROI_BOTTOM),
            r.brightness == last_value(values@, METADATA_BRIGHTNESS),
            r.contrast == last_value(values@, METADATA_CONTRAST),
            r.saturation == last_value(values@, METADATA_SATURATION),
            r.sharpness == last_value(values@, METADATA_SHARPNESS),
            r.auto_white_balance_temperature == last_value(values@, METADATA_AUTO_WHITE_BALANCE_TEMPERATURE),
            r.backlight_compensation == last_value(values@, METADATA_BACKLIGHT_COMPENSATION),
            r.hue == last_value(values@, METADATA_HUE),
            r.gamma == last_value(values@, METADATA_GAMMA),
            r.manual_white_balance == last_value(values@, METADATA_MANUAL_WHITE_BALANCE),
            r.power_line_frequency == last_value(values@, METADATA_POWER_LINE_FREQUENCY),
            r.low_light_compensation == last_value(values@, METADATA_LOW_LIGHT_COMPENSATION),
            r.frame_emitter_mode == last_value(values@, METADATA_FRAME_EMITTER_MODE),
            r.frame_led_power == last_value(values@, METADATA_FRAME_LED_POWER),
            r.raw_frame_size == last_value(values@, METADATA_RAW_FRAME_SIZE),
            r.gpio_input_data == last_value(values@, METADATA_GPIO_INPUT_DATA),
            r.sequence_name == last_value(values@, METADATA_SEQUENCE_NAME),
            r.sequence_id == last_value(values@, METADATA_SEQUENCE_ID),
            r.sequence_size == last_value(values@, METADATA_SEQUENCE_SIZE),
    {
        let mut md = Metadata::default();
        let mut i: usize = 0;
        while i < values.len()
            invariant
                i <= values.len(),
                md.frame_counter == last_value(values@.take(i as int), METADATA_FRAME_COUNTER),
                md.frame_timestamp == last_value(values@.take(i as int), METADATA_FRAME_TIMESTAMP),
                md.sensor_timestamp == last_value(values@.take(i as int), METADATA_SENSOR_TIMESTAMP),
                md.actual_exposure == last_value(values@.take(i as int), METADATA_ACTUAL_EXPOSURE),
                md.gain_level == last_value(values@.take(i as int), METADATA_GAIN_LEVEL),
                md.auto_exposure == last_value(values@.take(i as int), METADATA_AUTO_EXPOSURE),
                md.white_balance == last_value(values@.take(i as int), METADATA_WHITE_BALANCE),
                md.time_of_arrival == last_value(values@.take(i as int), METADATA_TIME_OF_ARRIVAL),
                md.temperature == last_value(values@.take(i as int), METADATA_TEMPERATURE),
                md.backend_timestamp == last_value(values@.take(i as int), METADATA_BACKEND_TIMESTAMP),
                md.actual_fps == last_value(values@.take(i as int), METADATA_ACTUAL_FPS),
                md.laser_power == last_value(values@.take(i as int), METADATA_LASER_POWER),
                md.laser_power_mode == last_value(values@.take(i as int), METADATA_LASER_POWER_MODE),
                md.exposure_priority == last_value(values@.take(i as int), METADATA_EXPOSURE_PRIORITY),
                md.exposure_roi_left == last_value(values@.take(i as int), METADATA_EXPOSURE_ROI_LEFT),
                md.exposure_roi_right == last_value(values@.take(i as int), METADATA_EXPOSURE_ROI_RIGHT),
                md.exposure_roi_top == last_value(values@.take(i as int), METADATA_EXPOSURE_ROI_TOP),
                md.exposure_roi_bottom == last_value(values@.take(i as int), METADATA_EXPOSURE_ROI_BOTTOM),
                md.brightness == last_value(values@.take(i as int), METADATA_BRIGHTNESS),
                md.contrast == last_value(values@.take(i as int), METADATA_CONTRAST),
                md.saturation == last_value(values@.take(i as int), METADATA_SATURATION),
                md.sharpness == last_value(values@.take(i as int), METADATA_SHARPNESS),
                md.auto_white_balance_temperature == last_value(values@.take(i as int), METADATA_AUTO_WHITE_BALANCE_TEMPERATURE),
                md.backlight_compensation == last_value(values@.take(i as int), METADATA_BACKLIGHT_COMPENSATION),
                md.hue == last_value(values@.take(i as int), METADATA_HUE),
                md.gamma == last_value(values@.take(i as int), METADATA_GAMMA),
                md.manual_white_balance == last_value(values@.take(i as int), METADATA_MANUAL_WHITE_BALANCE),
                md.power_line_frequency == last_value(values@.take(i as int), METADATA_POWER_LINE_FREQUENCY),
                md.low_light_compensation == last_value(values@.take(i as int), METADATA_LOW_LIGHT_COMPENSATION),
                md.frame_emitter_mode == last_value(values@.take(i as int), METADATA_FRAME_EMITTER_MODE),
                md.frame_led_power == last_value(values@.take(i as int), METADATA_FRAME_LED_POWER),
                md.raw_frame_size == last_value(values@.take(i as int), METADATA_RAW_FRAME_SIZE),
                md.gpio_input_data == last_value(values@.take(i as int), METADATA_GPIO_INPUT_DATA),
                md.sequence_name == last_value(values@.take(i as int), METADATA_SEQUENCE_NAME),
                md.sequence_id == last_value(values@.take(i as int), METADATA_SEQUENCE_ID),
                md.sequence_size == last_value(values@.take(i as int), METADATA_SEQUENCE_SIZE),
            decreases values.len() - i,
        {
            let (code, value) = values[i];
            assert(values@.take(i + 1).drop_last() =~= values@.take(i as int));
            assert(values@.take(i + 1).last() == values@[i as int]);
            match code {
                METADATA_FRAME_COUNTER => {
                    md.frame_counter = Some(value);
                },
                METADATA_FRAME_TIMESTAMP => {
                    md.frame_timestamp = Some(value);
                },
                METADATA_SENSOR_TIMESTAMP => {
                    md.sensor_timestamp = Some(value);
                },
                METADATA_ACTUAL_EXPOSURE => {
                    md.actual_exposure = Some(value);
                },
                METADATA_GAIN_LEVEL => {
                    md.gain_level = Some(value);
                },
                METADATA_AUTO_EXPOSURE => {
                    md.auto_exposure = Some(value);
                },
                METADATA_WHITE_BALANCE => {
                    md.white_balance = Some(value);
                },
                METADATA_TIME_OF_ARRIVAL => {
                    md.time_of_arrival = Some(value);
                },
                METADATA_TEMPERATURE => {
                    md.temperature = Some(value);
                },
                METADATA_BACKEND_TIMESTAMP => {
                    md.backend_timestamp = Some(value);
                },
                METADATA_ACTUAL_FPS => {
                    md.actual_fps = Some(value);
                },
                METADATA_LASER_POWER => {
                    md.laser_power = Some(value);
                },
                METADATA_LASER_POWER_MODE => {
                    md.laser_power_mode = Some(value);
                },
                METADATA_EXPOSURE_PRIORITY => {
                    md.exposure_priority = Some(value);
                },
                METADATA_EXPOSURE_ROI_LEFT => {
                    md.exposure_roi_left = Some(value);
                },
                METADATA_EXPOSURE_ROI_RIGHT => {
                    md.exposure_roi_right = Some(value);
                },
                METADATA_EXPOSURE_ROI_TOP => {
                    md.exposure_roi_top = Some(value);
                },
                METADATA_EXPOSURE_ROI_BOTTOM => {
                    md.exposure_roi_bottom = Some(value);
                },
                METADATA_BRIGHTNESS => {
                    md.brightness = Some(value);
                },
                METADATA_CONTRAST => {
                    md.contrast = Some(value);
                },
                METADATA_SATURATION => {
                    md.saturation = Some(value);
                },
                METADATA_SHARPNESS => {
                    md.sharpness = Some(value);
                },
                METADATA_AUTO_WHITE_BALANCE_TEMPERATURE => {
                    md.auto_white_balance_temperature = Some(value);
                },
                METADATA_BACKLIGHT_COMPENSATION => {
                    md.backlight_compensation = Some(value);
                },
                METADATA_HUE => {
                    md.hue = Some(value);
                },
                METADATA_GAMMA => {
                    md.gamma = Some(value);
                },
                METADATA_MANUAL_WHITE_BALANCE => {
                    md.manual_white_balance = Some(value);
                },
                METADATA_POWER_LINE_FREQUENCY => {
                    md.power_line_frequency = Some(value);
                },
                METADATA_LOW_LIGHT_COMPENSATION => {
                    md.low_light_compensation = Some(value);
                },
                METADATA_FRAME_EMITTER_MODE => {
                    md.frame_emitter_mode = Some(value);
                },
                METADATA_FRAME_LED_POWER => {
                    md.frame_led_power = Some(value);
                },
                METADATA_RAW_FRAME_SIZE => {
                    md.raw_frame_size = Some(value);
                },
                METADATA_GPIO_INPUT_DATA => {
                    md.gpio_input_data = Some(value);
                },
                METADATA_SEQUENCE_NAME => {
                    md.sequence_name = Some(value);
                },
                METADATA_SEQUENCE_ID => {
                    md.sequence_id = Some(value);
                },
                METADATA_SEQUENCE_SIZE => {
                    md.sequence_size = Some(value);
                },
                _ => {},
            }
            i = i + 1;
        }
        assert(values@.take(values.len() as int) =~= values@);
        md
    }
}

} // verus!
