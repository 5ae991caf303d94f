use proton::kaseta::{
    parameter_named, Parameter, BIAS_ATTRIBUTE, DELAY_1_FEEDBACK_ATTRIBUTE,
    DELAY_2_POSITION_ATTRIBUTE, DELAY_4_VOLUME_ATTRIBUTE, DELAY_ATTRIBUTE, DRIVE_ATTRIBUTE,
    PRE_AMP_ATTRIBUTE, WOW_DEPTH_ATTRIBUTE, WOW_FILTER_ATTRIBUTE, WOW_FREQUENCY_ATTRIBUTE,
};

#[test]
fn attributes_name_the_delay_settings() {
    assert_eq!(parameter_named(PRE_AMP_ATTRIBUTE), Some(Parameter::PreAmp));
    assert_eq!(parameter_named(DRIVE_ATTRIBUTE), Some(Parameter::Drive));
    assert_eq!(parameter_named(BIAS_ATTRIBUTE), Some(Parameter::Bias));
    assert_eq!(parameter_named(WOW_FREQUENCY_ATTRIBUTE), Some(Parameter::WowFrequency));
    assert_eq!(parameter_named(WOW_DEPTH_ATTRIBUTE), Some(Parameter::WowDepth));
    assert_eq!(parameter_named(WOW_FILTER_ATTRIBUTE), Some(Parameter::WowFilter));
    assert_eq!(parameter_named(DELAY_ATTRIBUTE), Some(Parameter::Delay));
}

#[test]
fn head_attributes_name_their_head() {
    assert_eq!(parameter_named(DELAY_2_POSITION_ATTRIBUTE), Some(Parameter::HeadPosition(1)));
    assert_eq!(parameter_named(DELAY_4_VOLUME_ATTRIBUTE), Some(Parameter::HeadVolume(3)));
    assert_eq!(parameter_named(DELAY_1_FEEDBACK_ATTRIBUTE), Some(Parameter::HeadFeedback(0)));
    assert_eq!(parameter_named("position 3"), Some(Parameter::HeadPosition(2)));
    assert_eq!(parameter_named("feedback 4"), Some(Parameter::HeadFeedback(3)));
}

#[test]
fn unknown_attributes_name_nothing() {
    assert_eq!(parameter_named(""), None);
    assert_eq!(parameter_named("position 5"), None);
    assert_eq!(parameter_named("Drive"), None);
}
