use nearssage::csidh::SKCsidh;
use nearssage::exchange::Exchangeable;

#[test]
fn csidh() {
    // CSIDH is slow: each side's work runs on its own blocking task.
    let runtime = tokio::runtime::Runtime::new().unwrap();

    // Generate a pair of keys
    let (bob, alice) = runtime.block_on(async {
        let bob = tokio::task::spawn_blocking(SKCsidh::new);
        let alice = tokio::task::spawn_blocking(SKCsidh::new);
        (bob.await.unwrap(), alice.await.unwrap())
    });

    // Get Bob's shared secret using Alice's public key, and Alice's using Bob's
    let (bob_shared_secret, alice_shared_secret) = runtime.block_on(async move {
        let bob_side = tokio::task::spawn_blocking(move || bob.get_secret(&alice.pk_exchange()));
        let alice_side = tokio::task::spawn_blocking(move || alice.get_secret(&bob.pk_exchange()));
        (bob_side.await.unwrap(), alice_side.await.unwrap())
    });

    // Check that the shared secret is the same for both
    assert!(bob_shared_secret.is_some());
    assert_eq!(bob_shared_secret == alice_shared_secret, true);
}
