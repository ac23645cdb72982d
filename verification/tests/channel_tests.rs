use rustymixer::channel::{ChannelId, ChannelOrientation, Crossfader, CrossfaderCurve};

#[test]
fn switch_curve() {
    let mut xf = Crossfader::new(CrossfaderCurve::Additive);
    assert_eq!(xf.curve(), CrossfaderCurve::Additive);

    xf.set_curve(CrossfaderCurve::ConstantPower);
    assert_eq!(xf.curve(), CrossfaderCurve::ConstantPower);
}

#[test]
fn crossfader_default_is_additive() {
    assert_eq!(Crossfader::default().curve(), CrossfaderCurve::Additive);
}

#[test]
fn channel_ids_compare_by_number() {
    assert_eq!(ChannelId(3), ChannelId(3));
    assert_ne!(ChannelId(0), ChannelId(1));
    assert_ne!(ChannelOrientation::Left, ChannelOrientation::Right);
}
