use quic_core::anti_amp::AntiAmplifier;
use quic_core::tx::Signals;

#[test]
fn test_deposit_and_poll_apply() {
    let mut anti_amplifier = AntiAmplifier::<3>::new();
    // Initially, no credit
    assert_eq!(anti_amplifier.balance(), Err(Signals::credit()));

    // Deposit 1 unit of data, should add 3 units of credit
    anti_amplifier.on_rcvd(1);
    assert_eq!(anti_amplifier.credit(), 3);

    assert_eq!(anti_amplifier.balance(), Ok(Some(3)));
    assert_eq!(anti_amplifier.credit(), 3);

    anti_amplifier.on_sent(3);

    // No credit left
    assert_eq!(anti_amplifier.balance(), Err(Signals::credit()));
}

#[test]
fn test_multiple_deposits() {
    let mut anti_amplifier = AntiAmplifier::<3>::new();

    anti_amplifier.on_rcvd(1);
    assert_eq!(anti_amplifier.credit(), 3);

    anti_amplifier.on_rcvd(1);
    assert_eq!(anti_amplifier.credit(), 6);

    assert_eq!(anti_amplifier.balance(), Ok(Some(6)));
    assert_eq!(anti_amplifier.credit(), 6);

    anti_amplifier.on_sent(5);
    assert_eq!(anti_amplifier.credit(), 1);
}
