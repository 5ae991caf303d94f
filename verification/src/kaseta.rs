//! The settings of the Kaseta tape delay, as the user interface names them.

use vstd::prelude::*;

use crate::text::str_eq;

verus! {

pub const PRE_AMP_ATTRIBUTE: &'static str = "pre-amp";
pub const DRIVE_ATTRIBUTE: &'static str = "drive";
pub const BIAS_ATTRIBUTE: &'static str = "bias";
pub const WOW_FREQUENCY_ATTRIBUTE: &'static str = "wow frequency";
pub const WOW_DEPTH_ATTRIBUTE: &'static str = "wow depth";
pub const WOW_FILTER_ATTRIBUTE: &'static str = "wow filter";
pub const DELAY_ATTRIBUTE: &'static str = "delay";
pub const DELAY_1_POSITION_ATTRIBUTE: &'static str = "position 1";
pub const DELAY_2_POSITION_ATTRIBUTE: &'static str = "position 2";
pub const DELAY_3_POSITION_ATTRIBUTE: &'static str = "position 3";
pub const DELAY_4_POSITION_ATTRIBUTE: &'static str = "position 4";
pub const DELAY_1_VOLUME_ATTRIBUTE: &'static str = "volume 1";
pub const DELAY_2_VOLUME_ATTRIBUTE: &'static str = "volume 2";
pub const DELAY_3_VOLUME_ATTRIBUTE: &'static str = "volume 3";
pub const DELAY_4_VOLUME_ATTRIBUTE: &'static str = "volume 4";
pub const DELAY_1_FEEDBACK_ATTRIBUTE: &'static str = "feedback 1";
pub const DELAY_2_FEEDBACK_ATTRIBUTE: &'static str = "feedback 2";
pub const DELAY_3_FEEDBACK_ATTRIBUTE: &'static str = "feedback 3";
pub const DELAY_4_FEEDBACK_ATTRIBUTE: &'static str = "feedback 4";

/// A setting of the delay; the settings of its heads hold the head's index,
/// from zero.
#[derive(Clone, Copy, Debug, PartialEq, Eq, Structural)]
pub enum Parameter {
    PreAmp,
    Drive,
    Bias,
    WowFrequency,
    WowDepth,
    WowFilter,
    Delay,
    HeadPosition(usize),
    HeadVolume(usize),
    HeadFeedback(usize),
}

/// The setting the attribute named `name` stands for, if any.
pub open spec fn parameter_of(name: Seq<char>) -> Option<Parameter> {
    if name == PRE_AMP_ATTRIBUTE@ {
        Some(Parameter::PreAmp)
    } else if name == DRIVE_ATTRIBUTE@ {
        Some(Parameter::Drive)
    } else if name == BIAS_ATTRIBUTE@ {
        Some(Parameter::Bias)
    } else if name == WOW_FREQUENCY_ATTRIBUTE@ {
        Some(Parameter::WowFrequency)
    } else if name == WOW_DEPTH_ATTRIBUTE@ {
        Some(Parameter::WowDepth)
    } else if name == WOW_FILTER_ATTRIBUTE@ {
        Some(Parameter::WowFilter)
    } else if name == DELAY_ATTRIBUTE@ {
        Some(Parameter::Delay)
    } else if name == DELAY_1_POSITION_ATTRIBUTE@ {
        Some(Parameter::HeadPosition(0))
    } else if name == DELAY_2_POSITION_ATTRIBUTE@ {
        Some(Parameter::HeadPosition(1))
    } else if name == DELAY_3_POSITION_ATTRIBUTE@ {
        Some(Parameter::HeadPosition(2))
    } else if name == DELAY_4_POSITION_ATTRIBUTE@ {
        Some(Parameter::HeadPosition(3))
    } else if name == DELAY_1_VOLUME_ATTRIBUTE@ {
        Some(Parameter::HeadVolume(0))
    } else if name == DELAY_2_VOLUME_ATTRIBUTE@ {
        Some(Parameter::HeadVolume(1))
    } else if name == DELAY_3_VOLUME_ATTRIBUTE@ {
        Some(Parameter::HeadVolume(2))
    } else if name == DELAY_4_VOLUME_ATTRIBUTE@ {
        Some(Parameter::HeadVolume(3))
    } else if name == DELAY_1_FEEDBACK_ATTRIBUTE@ {
        Some(Parameter::HeadFeedback(0))
    } else if name == DELAY_2_FEEDBACK_ATTRIBUTE@ {
        Some(Parameter::HeadFeedback(1))
    } else if name == DELAY_3_FEEDBACK_ATTRIBUTE@ {
        Some(Parameter::HeadFeedback(2))
    } else if name == DELAY_4_FEEDBACK_ATTRIBUTE@ {
        Some(Parameter::HeadFeedback(3))
    } else {
        None
    }
}

/// The setting the attribute named `name` stands for; `None` for any other
/// name.
pub fn parameter_named(name: &str) -> (r: Option<Parameter>)
    ensures
        r == parameter_of(name@),
{
    if str_eq(name, PRE_AMP_ATTRIBUTE) {
        Some(Parameter::PreAmp)
    } else if str_eq(name, DRIVE_ATTRIBUTE) {
        Some(Parameter::Drive)
    } else if str_eq(name, BIAS_ATTRIBUTE) {
        Some(Parameter::Bias)
    } else if str_eq(name, WOW_FREQUENCY_ATTRIBUTE) {
        Some(Parameter::WowFrequency)
    } else if str_eq(name, WOW_DEPTH_ATTRIBUTE) {
        Some(Parameter::WowDepth)
    } else if str_eq(name, WOW_FILTER_ATTRIBUTE) {
        Some(Parameter::WowFilter)
    } else if str_eq(name, DELAY_ATTRIBUTE) {
        Some(Parameter::Delay)
    } else if str_eq(name, DELAY_1_POSITION_ATTRIBUTE) {
        Some(Parameter::HeadPosition(0))
    } else if str_eq(name, DELAY_2_POSITION_ATTRIBUTE) {
        Some(Parameter::HeadPosition(1))
    } else if str_eq(name, DELAY_3_POSITION_ATTRIBUTE) {
        Some(Parameter::HeadPosition(2))
    } else if str_eq(name, DELAY_4_POSITION_ATTRIBUTE) {
        Some(Parameter::HeadPosition(3))
    } else if str_eq(name, DELAY_1_VOLUME_ATTRIBUTE) {
        Some(Parameter::HeadVolume(0))
    } else if str_eq(name, DELAY_2_VOLUME_ATTRIBUTE) {
        Some(Parameter::HeadVolume(1))
    } else if str_eq(name, DELAY_3_VOLUME_ATTRIBUTE) {
        Some(Parameter::HeadVolume(2))
    } else if str_eq(name, DELAY_4_VOLUME_ATTRIBUTE) {
        Some(Parameter::HeadVolume(3))
    } else if str_eq(name, DELAY_1_FEEDBACK_ATTRIBUTE) {
        Some(Parameter::HeadFeedback(0))
    } else if str_eq(name, DELAY_2_FEEDBACK_ATTRIBUTE) {
        Some(Parameter::HeadFeedback(1))
    } else if str_eq(name, DELAY_3_FEEDBACK_ATTRIBUTE) {
        Some(Parameter::HeadFeedback(2))
    } else if str_eq(name, DELAY_4_FEEDBACK_ATTRIBUTE) {
        Some(Parameter::HeadFeedback(3))
    } else {
        None
    }
}

/// The name of the setting of one head: the kind of setting, a space and the
/// head's number, counted from one.
pub open spec fn head_attribute(kind: Seq<char>, number: int) -> Seq<char> {
    kind + seq![' ', (('0' as int) + number) as char]
}

/// Head `k`, counted from one, is set by the attributes "position k",
/// "volume k" and "feedback k", and those set its index, `k - 1`.
pub proof fn lemma_head_attributes_name_their_head(number: int)
    requires
        1 <= number <= 4,
    ensures
        parameter_of(head_attribute("position"@, number)) == Some(Parameter::HeadPosition((number - 1) as usize)),
        parameter_of(head_attribute("volume"@, number)) == Some(Parameter::HeadVolume((number - 1) as usize)),
        parameter_of(head_attribute("feedback"@, number)) == Some(Parameter::HeadFeedback((number - 1) as usize)),
{
    reveal_strlit("position");
    reveal_strlit("volume");
    reveal_strlit("feedback");
    if number == 1 {
        lemma_position_1();
        reveal_strlit("position 1");
        assert(head_attribute("position"@, number) =~= "position 1"@);
        lemma_volume_1();
        reveal_strlit("volume 1");
        assert(head_attribute("volume"@, number) =~= "volume 1"@);
        lemma_feedback_1();
        reveal_strlit("feedback 1");
        assert(head_attribute("feedback"@, number) =~= "feedback 1"@);
    } else if number == 2 {
        lemma_position_2();
        reveal_strlit("position 2");
        assert(head_attribute("position"@, number) =~= "position 2"@);
        lemma_volume_2();
        reveal_strlit("volume 2");
        assert(head_attribute("volume"@, number) =~= "volume 2"@);
        lemma_feedback_2();
        reveal_strlit("feedback 2");
        assert(head_attribute("feedback"@, number) =~= "feedback 2"@);
    } else if number == 3 {
        lemma_position_3();
        reveal_strlit("position 3");
        assert(head_attribute("position"@, number) =~= "position 3"@);
        lemma_volume_3();
        reveal_strlit("volume 3");
        assert(head_attribute("volume"@, number) =~= "volume 3"@);
        lemma_feedback_3();
        reveal_strlit("feedback 3");
        assert(head_attribute("feedback"@, number) =~= "feedback 3"@);
    } else {
        lemma_position_4();
        reveal_strlit("position 4");
        assert(head_attribute("position"@, number) =~= "position 4"@);
        lemma_volume_4();
        reveal_strlit("volume 4");
        assert(head_attribute("volume"@, number) =~= "volume 4"@);
        lemma_feedback_4();
        reveal_strlit("feedback 4");
        assert(head_attribute("feedback"@, number) =~= "feedback 4"@);
    }
}

proof fn lemma_position_1()
    ensures
        parameter_of("position 1"@) == Some(Parameter::HeadPosition(0)),
{
    reveal_strlit("position 1");
    reveal_strlit("pre-amp");
    assert("position 1"@.len() != "pre-amp"@.len());
    reveal_strlit("drive");
    assert("position 1"@.len() != "drive"@.len());
    reveal_strlit("bias");
    assert("position 1"@.len() != "bias"@.len());
    reveal_strlit("wow frequency");
    assert("position 1"@.len() != "wow frequency"@.len());
    reveal_strlit("wow depth");
    assert("position 1"@.len() != "wow depth"@.len());
    reveal_strlit("wow filter");
    assert("position 1"@[0] != "wow filter"@[0]);
    reveal_strlit("delay");
    assert("position 1"@.len() != "delay"@.len());
}

proof fn lemma_volume_1()
    ensures
        parameter_of("volume 1"@) == Some(Parameter::HeadVolume(0)),
{
    reveal_strlit("volume 1");
    reveal_strlit("pre-amp");
    assert("volume 1"@.len() != "pre-amp"@.len());
    reveal_strlit("drive");
    assert("volume 1"@.len() != "drive"@.len());
    reveal_strlit("bias");
    assert("volume 1"@.len() != "bias"@.len());
    reveal_strlit("wow frequency");
    assert("volume 1"@.len() != "wow frequency"@.len());
    reveal_strlit("wow depth");
    assert("volume 1"@.len() != "wow depth"@.len());
    reveal_strlit("wow filter");
    assert("volume 1"@.len() != "wow filter"@.len());
    reveal_strlit("delay");
    assert("volume 1"@.len() != "delay"@.len());
    reveal_strlit("position 1");
    assert("volume 1"@.len() != "position 1"@.len());
    reveal_strlit("position 2");
    assert("volume 1"@.len() != "position 2"@.len());
    reveal_strlit("position 3");
    assert("volume 1"@.len() != "position 3"@.len());
    reveal_strlit("position 4");
    assert("volume 1"@.len() != "position 4"@.len());
}

proof fn lemma_feedback_1()
    ensures
        parameter_of("feedback 1"@) == Some(Parameter::HeadFeedback(0)),
{
    reveal_strlit("feedback 1");
    reveal_strlit("pre-amp");
    assert("feedback 1"@.len() != "pre-amp"@.len());
    reveal_strlit("drive");
    assert("feedback 1"@.len() != "drive"@.len());
    reveal_strlit("bias");
    assert("feedback 1"@.len() != "bias"@.len());
    reveal_strlit("wow frequency");
    assert("feedback 1"@.len() != "wow frequency"@.len());
    reveal_strlit("wow depth");
    assert("feedback 1"@.len() != "wow depth"@.len());
    reveal_strlit("wow filter");
    assert("feedback 1"@[0] != "wow filter"@[0]);
    reveal_strlit("delay");
    assert("feedback 1"@.len() != "delay"@.len());
    reveal_strlit("position 1");
    assert("feedback 1"@[0] != "position 1"@[0]);
    reveal_strlit("position 2");
    assert("feedback 1"@[0] != "position 2"@[0]);
    reveal_strlit("position 3");
    assert("feedback 1"@[0] != "position 3"@[0]);
    reveal_strlit("position 4");
    assert("feedback 1"@[0] != "position 4"@[0]);
    reveal_strlit("volume 1");
    assert("feedback 1"@.len() != "volume 1"@.len());
    reveal_strlit("volume 2");
    assert("feedback 1"@.len() != "volume 2"@.len());
    reveal_strlit("volume 3");
    assert("feedback 1"@.len() != "volume 3"@.len());
    reveal_strlit("volume 4");
    assert("feedback 1"@.len() != "volume 4"@.len());
}

proof fn lemma_position_2()
    ensures
        parameter_of("position 2"@) == Some(Parameter::HeadPosition(1)),
{
    reveal_strlit("position 2");
    reveal_strlit("pre-amp");
    assert("position 2"@.len() != "pre-amp"@.len());
    reveal_strlit("drive");
    assert("position 2"@.len() != "drive"@.len());
    reveal_strlit("bias");
    assert("position 2"@.len() != "bias"@.len());
    reveal_strlit("wow frequency");
    assert("position 2"@.len() != "wow frequency"@.len());
    reveal_strlit("wow depth");
    assert("position 2"@.len() != "wow depth"@.len());
    reveal_strlit("wow filter");
    assert("position 2"@[0] != "wow filter"@[0]);
    reveal_strlit("delay");
    assert("position 2"@.len() != "delay"@.len());
    reveal_strlit("position 1");
    assert("position 2"@[9] != "position 1"@[9]);
}

proof fn lemma_volume_2()
    ensures
        parameter_of("volume 2"@) == Some(Parameter::HeadVolume(1)),
{
    reveal_strlit("volume 2");
    reveal_strlit("pre-amp");
    assert("volume 2"@.len() != "pre-amp"@.len());
    reveal_strlit("drive");
    assert("volume 2"@.len() != "drive"@.len());
    reveal_strlit("bias");
    assert("volume 2"@.len() != "bias"@.len());
    reveal_strlit("wow frequency");
    assert("volume 2"@.len() != "wow frequency"@.len());
    reveal_strlit("wow depth");
    assert("volume 2"@.len() != "wow depth"@.len());
    reveal_strlit("wow filter");
    assert("volume 2"@.len() != "wow filter"@.len());
    reveal_strlit("delay");
    assert("volume 2"@.len() != "delay"@.len());
    reveal_strlit("position 1");
    assert("volume 2"@.len() != "position 1"@.len());
    reveal_strlit("position 2");
    assert("volume 2"@.len() != "position 2"@.len());
    reveal_strlit("position 3");
    assert("volume 2"@.len() != "position 3"@.len());
    reveal_strlit("position 4");
    assert("volume 2"@.len() != "position 4"@.len());
    reveal_strlit("volume 1");
    assert("volume 2"@[7] != "volume 1"@[7]);
}

proof fn lemma_feedback_2()
    ensures
        parameter_of("feedback 2"@) == Some(Parameter::HeadFeedback(1)),
{
    reveal_strlit("feedback 2");
    reveal_strlit("pre-amp");
    assert("feedback 2"@.len() != "pre-amp"@.len());
    reveal_strlit("drive");
    assert("feedback 2"@.len() != "drive"@.len());
    reveal_strlit("bias");
    assert("feedback 2"@.len() != "bias"@.len());
    reveal_strlit("wow frequency");
    assert("feedback 2"@.len() != "wow frequency"@.len());
    reveal_strlit("wow depth");
    assert("feedback 2"@.len() != "wow depth"@.len());
    reveal_strlit("wow filter");
    assert("feedback 2"@[0] != "wow filter"@[0]);
    reveal_strlit("delay");
    assert("feedback 2"@.len() != "delay"@.len());
    reveal_strlit("position 1");
    assert("feedback 2"@[0] != "position 1"@[0]);
    reveal_strlit("position 2");
    assert("feedback 2"@[0] != "position 2"@[0]);
    reveal_strlit("position 3");
    assert("feedback 2"@[0] != "position 3"@[0]);
    reveal_strlit("position 4");
    assert("feedback 2"@[0] != "position 4"@[0]);
    reveal_strlit("volume 1");
    assert("feedback 2"@.len() != "volume 1"@.len());
    reveal_strlit("volume 2");
    assert("feedback 2"@.len() != "volume 2"@.len());
    reveal_strlit("volume 3");
    assert("feedback 2"@.len() != "volume 3"@.len());
    reveal_strlit("volume 4");
    assert("feedback 2"@.len() != "volume 4"@.len());
    reveal_strlit("feedback 1");
    assert("feedback 2"@[9] != "feedback 1"@[9]);
}

proof fn lemma_position_3()
    ensures
        parameter_of("position 3"@) == Some(Parameter::HeadPosition(2)),
{
    reveal_strlit("position 3");
    reveal_strlit("pre-amp");
    assert("position 3"@.len() != "pre-amp"@.len());
    reveal_strlit("drive");
    assert("position 3"@.len() != "drive"@.len());
    reveal_strlit("bias");
    assert("position 3"@.len() != "bias"@.len());
    reveal_strlit("wow frequency");
    assert("position 3"@.len() != "wow frequency"@.len());
    reveal_strlit("wow depth");
    assert("position 3"@.len() != "wow depth"@.len());
    reveal_strlit("wow filter");
    assert("position 3"@[0] != "wow filter"@[0]);
    reveal_strlit("delay");
    assert("position 3"@.len() != "delay"@.len());
    reveal_strlit("position 1");
    assert("position 3"@[9] != "position 1"@[9]);
    reveal_strlit("position 2");
    assert("position 3"@[9] != "position 2"@[9]);
}

proof fn lemma_volume_3()
    ensures
        parameter_of("volume 3"@) == Some(Parameter::HeadVolume(2)),
{
    reveal_strlit("volume 3");
    reveal_strlit("pre-amp");
    assert("volume 3"@.len() != "pre-amp"@.len());
    reveal_strlit("drive");
    assert("volume 3"@.len() != "drive"@.len());
    reveal_strlit("bias");
    assert("volume 3"@.len() != "bias"@.len());
    reveal_strlit("wow frequency");
    assert("volume 3"@.len() != "wow frequency"@.len());
    reveal_strlit("wow depth");
    assert("volume 3"@.len() != "wow depth"@.len());
    reveal_strlit("wow filter");
    assert("volume 3"@.len() != "wow filter"@.len());
    reveal_strlit("delay");
    assert("volume 3"@.len() != "delay"@.len());
    reveal_strlit("position 1");
    assert("volume 3"@.len() != "position 1"@.len());
    reveal_strlit("position 2");
    assert("volume 3"@.len() != "position 2"@.len());
    reveal_strlit("position 3");
    assert("volume 3"@.len() != "position 3"@.len());
    reveal_strlit("position 4");
    assert("volume 3"@.len() != "position 4"@.len());
    reveal_strlit("volume 1");
    assert("volume 3"@[7] != "volume 1"@[7]);
    reveal_strlit("volume 2");
    assert("volume 3"@[7] != "volume 2"@[7]);
}

proof fn lemma_feedback_3()
    ensures
        parameter_of("feedback 3"@) == Some(Parameter::HeadFeedback(2)),
{
    reveal_strlit("feedback 3");
    reveal_strlit("pre-amp");
    assert("feedback 3"@.len() != "pre-amp"@.len());
    reveal_strlit("drive");
    assert("feedback 3"@.len() != "drive"@.len());
    reveal_strlit("bias");
    assert("feedback 3"@.len() != "bias"@.len());
    reveal_strlit("wow frequency");
    assert("feedback 3"@.len() != "wow frequency"@.len());
    reveal_strlit("wow depth");
    assert("feedback 3"@.len() != "wow depth"@.len());
    reveal_strlit("wow filter");
    assert("feedback 3"@[0] != "wow filter"@[0]);
    reveal_strlit("delay");
    assert("feedback 3"@.len() != "delay"@.len());
    reveal_strlit("position 1");
    assert("feedback 3"@[0] != "position 1"@[0]);
    reveal_strlit("position 2");
    assert("feedback 3"@[0] != "position 2"@[0]);
    reveal_strlit("position 3");
    assert("feedback 3"@[0] != "position 3"@[0]);
    reveal_strlit("position 4");
    assert("feedback 3"@[0] != "position 4"@[0]);
    reveal_strlit("volume 1");
    assert("feedback 3"@.len() != "volume 1"@.len());
    reveal_strlit("volume 2");
    assert("feedback 3"@.len() != "volume 2"@.len());
    reveal_strlit("volume 3");
    assert("feedback 3"@.len() != "volume 3"@.len());
    reveal_strlit("volume 4");
    assert("feedback 3"@.len() != "volume 4"@.len());
    reveal_strlit("feedback 1");
    assert("feedback 3"@[9] != "feedback 1"@[9]);
    reveal_strlit("feedback 2");
    assert("feedback 3"@[9] != "feedback 2"@[9]);
}

proof fn lemma_position_4()
    ensures
        parameter_of("position 4"@) == Some(Parameter::HeadPosition(3)),
{
    reveal_strlit("position 4");
    reveal_strlit("pre-amp");
    assert("position 4"@.len() != "pre-amp"@.len());
    reveal_strlit("drive");
    assert("position 4"@.len() != "drive"@.len());
    reveal_strlit("bias");
    assert("position 4"@.len() != "bias"@.len());
    reveal_strlit("wow frequency");
    assert("position 4"@.len() != "wow frequency"@.len());
    reveal_strlit("wow depth");
    assert("position 4"@.len() != "wow depth"@.len());
    reveal_strlit("wow filter");
    assert("position 4"@[0] != "wow filter"@[0]);
    reveal_strlit("delay");
    assert("position 4"@.len() != "delay"@.len());
    reveal_strlit("position 1");
    assert("position 4"@[9] != "position 1"@[9]);
    reveal_strlit("position 2");
    assert("position 4"@[9] != "position 2"@[9]);
    reveal_strlit("position 3");
    assert("position 4"@[9] != "position 3"@[9]);
}

proof fn lemma_volume_4()
    ensures
        parameter_of("volume 4"@) == Some(Parameter::HeadVolume(3)),
{
    reveal_strlit("volume 4");
    reveal_strlit("pre-amp");
    assert("volume 4"@.len() != "pre-amp"@.len());
    reveal_strlit("drive");
    assert("volume 4"@.len() != "drive"@.len());
    reveal_strlit("bias");
    assert("volume 4"@.len() != "bias"@.len());
    reveal_strlit("wow frequency");
    assert("volume 4"@.len() != "wow frequency"@.len());
    reveal_strlit("wow depth");
    assert("volume 4"@.len() != "wow depth"@.len());
    reveal_strlit("wow filter");
    assert("volume 4"@.len() != "wow filter"@.len());
    reveal_strlit("delay");
    assert("volume 4"@.len() != "delay"@.len());
    reveal_strlit("position 1");
    assert("volume 4"@.len() != "position 1"@.len());
    reveal_strlit("position 2");
    assert("volume 4"@.len() != "position 2"@.len());
    reveal_strlit("position 3");
    assert("volume 4"@.len() != "position 3"@.len());
    reveal_strlit("position 4");
    assert("volume 4"@.len() != "position 4"@.len());
    reveal_strlit("volume 1");
    assert("volume 4"@[7] != "volume 1"@[7]);
    reveal_strlit("volume 2");
    assert("volume 4"@[7] != "volume 2"@[7]);
    reveal_strlit("volume 3");
    assert("volume 4"@[7] != "volume 3"@[7]);
}

proof fn lemma_feedback_4()
    ensures
        parameter_of("feedback 4"@) == Some(Parameter::HeadFeedback(3)),
{
    reveal_strlit("feedback 4");
    reveal_strlit("pre-amp");
    assert("feedback 4"@.len() != "pre-amp"@.len());
    reveal_strlit("drive");
    assert("feedback 4"@.len() != "drive"@.len());
    reveal_strlit("bias");
    assert("feedback 4"@.len() != "bias"@.len());
    reveal_strlit("wow frequency");
    assert("feedback 4"@.len() != "wow frequency"@.len());
    reveal_strlit("wow depth");
    assert("feedback 4"@.len() != "wow depth"@.len());
    reveal_strlit("wow filter");
    assert("feedback 4"@[0] != "wow filter"@[0]);
    reveal_strlit("delay");
    assert("feedback 4"@.len() != "delay"@.len());
    reveal_strlit("position 1");
    assert("feedback 4"@[0] != "position 1"@[0]);
    reveal_strlit("position 2");
    assert("feedback 4"@[0] != "position 2"@[0]);
    reveal_strlit("position 3");
    assert("feedback 4"@[0] != "position 3"@[0]);
    reveal_strlit("position 4");
    assert("feedback 4"@[0] != "position 4"@[0]);
    reveal_strlit("volume 1");
    assert("feedback 4"@.len() != "volume 1"@.len());
    reveal_strlit("volume 2");
    assert("feedback 4"@.len() != "volume 2"@.len());
    reveal_strlit("volume 3");
    assert("feedback 4"@.len() != "volume 3"@.len());
    reveal_strlit("volume 4");
    assert("feedback 4"@.len() != "volume 4"@.len());
    reveal_strlit("feedback 1");
    assert("feedback 4"@[9] != "feedback 1"@[9]);
    reveal_strlit("feedback 2");
    assert("feedback 4"@[9] != "feedback 2"@[9]);
    reveal_strlit("feedback 3");
    assert("feedback 4"@[9] != "feedback 3"@[9]);
}

/// No two attribute names set the same setting: a name that sets anything
/// is the only one that sets it.
pub proof fn lemma_settings_have_one_name(a: Seq<char>, b: Seq<char>)
    requires
        parameter_of(a) is Some,
        parameter_of(a) == parameter_of(b),
    ensures
        a == b,
{
}

/// The delay has four heads: every head setting names one of them.
pub proof fn lemma_head_settings_name_a_head(name: Seq<char>)
    ensures
        parameter_of(name) matches Some(Parameter::HeadPosition(head)) ==> head < 4,
        parameter_of(name) matches Some(Parameter::HeadVolume(head)) ==> head < 4,
        parameter_of(name) matches Some(Parameter::HeadFeedback(head)) ==> head < 4,
{
}

} // verus!
