use cms_video_recorder::config::{Hotkey, MOD_CONTROL, MOD_NOREPEAT, MOD_SHIFT};
use cms_video_recorder::hotkey::{Event, Listener};

#[test]
fn listener_rebinds_to_the_desired_hotkey() {
    let mut listener = Listener::new();
    let step = listener.rebind(Hotkey::to_bits(Some(Hotkey::shipped_default())));
    assert!(!step.unregister);
    assert_eq!(step.register, Some((MOD_CONTROL | MOD_SHIFT | MOD_NOREPEAT, 0x52)));
    assert_eq!(listener.registered(true), None);
    assert!(listener.bound);
    // Disabling drops the registration and registers nothing.
    let step = listener.rebind(Hotkey::to_bits(None));
    assert!(step.unregister);
    assert_eq!(step.register, None);
    assert!(!listener.bound);
}

#[test]
fn refused_registration_is_reported() {
    let mut listener = Listener::new();
    let _ = listener.rebind(Hotkey::to_bits(Some(Hotkey::shipped_default())));
    assert_eq!(listener.registered(false), Some(Event::Rejected));
    assert!(!listener.bound);
    assert!(!listener.rebind(0).unregister);
}
