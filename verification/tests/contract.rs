use soroban_sdk::address_payload::AddressPayload;
use soroban_sdk::testutils::{Address as _, EnvTestConfig};
use soroban_sdk::{token, BytesN, Env};
use tipjar::{
    Address, AddressKind, DataKey, Effect, Event, Failure, Ledger, TipJarContract, TipJarError,
    TipSplit,
};

type HostAddress = soroban_sdk::Address;
type HostString = soroban_sdk::String;
type Metadata = soroban_sdk::Map<HostString, HostString>;

/// A host that writes nothing to disk.
fn host() -> Env {
    Env::new_with_config(EnvTestConfig { capture_snapshot_at_drop: false })
}

fn halves(bytes: &BytesN<32>) -> (u128, u128) {
    let b: [u8; 32] = bytes.to_array();
    let mut high = [0u8; 16];
    let mut low = [0u8; 16];
    high.copy_from_slice(&b[..16]);
    low.copy_from_slice(&b[16..]);
    (u128::from_be_bytes(high), u128::from_be_bytes(low))
}

fn plain(a: &HostAddress) -> Address {
    match a.to_payload().unwrap() {
        AddressPayload::AccountIdPublicKeyEd25519(k) => {
            let (high, low) = halves(&k);
            Address { kind: AddressKind::Account, high, low }
        }
        AddressPayload::ContractIdHash(k) => {
            let (high, low) = halves(&k);
            Address { kind: AddressKind::Contract, high, low }
        }
    }
}

fn host_address(env: &Env, a: Address) -> HostAddress {
    let mut b = [0u8; 32];
    b[..16].copy_from_slice(&a.high.to_be_bytes());
    b[16..].copy_from_slice(&a.low.to_be_bytes());
    let bytes = BytesN::from_array(env, &b);
    match a.kind {
        AddressKind::Account => AddressPayload::AccountIdPublicKeyEd25519(bytes).to_address(env),
        AddressKind::Contract => AddressPayload::ContractIdHash(bytes).to_address(env),
    }
}

/// A tip jar beside a real token: what accepted calls ask of the token is done.
struct Jar {
    env: Env,
    token: HostAddress,
    contract: Address,
    admin: Address,
    ledger: Ledger,
}

impl Jar {
    fn blank() -> Jar {
        let env = host();
        env.mock_all_auths();
        let token_admin = HostAddress::generate(&env);
        let token = env.register_stellar_asset_contract_v2(token_admin).address();
        let contract = plain(&HostAddress::generate(&env));
        let admin = plain(&HostAddress::generate(&env));
        let ledger = Ledger::new(env.clone(), contract, 0);
        Jar { env, token, contract, admin, ledger }
    }

    fn setup() -> Jar {
        let mut jar = Jar::blank();
        let (token, admin) = (plain(&jar.token), jar.admin);
        jar.call(|l| TipJarContract::init(l, token, admin)).unwrap();
        jar
    }

    fn someone(&self) -> Address {
        plain(&HostAddress::generate(&self.env))
    }

    fn mint(&self, to: Address, amount: i128) {
        token::StellarAssetClient::new(&self.env, &self.token)
            .mint(&host_address(&self.env, to), &amount);
    }

    fn holds(&self, who: Address) -> i128 {
        token::Client::new(&self.env, &self.token).balance(&host_address(&self.env, who))
    }

    fn string(&self, s: &str) -> HostString {
        HostString::from_str(&self.env, s)
    }

    fn no_metadata(&self) -> Metadata {
        soroban_sdk::Map::new(&self.env)
    }

    fn call<T>(
        &mut self,
        f: impl FnOnce(&mut Ledger) -> Result<T, Failure>,
    ) -> Result<T, Failure> {
        let result = f(&mut self.ledger);
        let effects = std::mem::take(&mut self.ledger.effects);
        if result.is_ok() {
            for effect in &effects {
                if let Effect::Transfer { token, from, to, amount } = effect {
                    token::Client::new(&self.env, &host_address(&self.env, *token)).transfer(
                        &host_address(&self.env, *from),
                        &host_address(&self.env, *to),
                        amount,
                    );
                }
            }
        }
        result
    }

    fn tip(&mut self, sender: Address, creator: Address, amount: i128) -> Result<(), Failure> {
        self.call(|l| TipJarContract::tip(l, sender, creator, amount))
    }

    fn withdraw(&mut self, creator: Address) -> Result<(), Failure> {
        self.call(|l| TipJarContract::withdraw(l, creator))
    }

    fn balance(&self, creator: Address) -> i128 {
        TipJarContract::get_withdrawable_balance(&self.ledger, creator)
    }

    fn total(&self, creator: Address) -> i128 {
        TipJarContract::get_total_tips(&self.ledger, creator)
    }
}

fn refused(e: TipJarError) -> Result<(), Failure> {
    Err(Failure::Error(e))
}

fn split(creator: Address, percentage: u32) -> TipSplit {
    TipSplit { creator, percentage }
}

fn address(low: u128) -> Address {
    Address { kind: AddressKind::Account, high: 7, low }
}

fn bare_ledger() -> Ledger {
    Ledger::new(host(), address(100), 50)
}

fn ready_ledger() -> Ledger {
    let mut l = bare_ledger();
    assert_eq!(TipJarContract::init(&mut l, address(1), address(2)), Ok(()));
    l.effects.clear();
    l
}

#[test]
fn test_tipping_functionality() {
    let mut jar = Jar::setup();
    let sender = jar.someone();
    let creator = jar.someone();

    jar.mint(sender, 1_000);
    jar.tip(sender, creator, 250).unwrap();

    assert_eq!(jar.holds(sender), 750);
    assert_eq!(jar.holds(jar.contract), 250);
    assert_eq!(jar.total(creator), 250);
}

#[test]
fn test_tipping_with_message_functionality() {
    let mut jar = Jar::setup();
    let sender = jar.someone();
    let creator = jar.someone();

    let message = jar.string("Great job!");
    let metadata = jar.no_metadata();

    jar.mint(sender, 1_000);
    let sent = message.clone();
    jar.call(|l| TipJarContract::tip_with_message(l, sender, creator, 250, sent, metadata))
        .unwrap();

    assert_eq!(jar.holds(sender), 750);
    assert_eq!(jar.holds(jar.contract), 250);
    assert_eq!(jar.total(creator), 250);

    let msgs = TipJarContract::get_messages(&jar.ledger, creator);
    assert_eq!(msgs.len(), 1);
    assert_eq!(msgs[0].message, message);
}

#[test]
fn test_tipping_message_too_long() {
    let mut jar = Jar::setup();
    let sender = jar.someone();
    let creator = jar.someone();

    let message = jar.string(&"x".repeat(281));
    let metadata = jar.no_metadata();

    jar.mint(sender, 1_000);
    let r = jar
        .call(|l| TipJarContract::tip_with_message(l, sender, creator, 250, message, metadata));
    assert_eq!(r, refused(TipJarError::MessageTooLong));
    assert_eq!(TipJarError::MessageTooLong.code(), 5);
    assert_eq!(jar.holds(sender), 1_000);
}

#[test]
fn test_balance_tracking_and_withdraw() {
    let mut jar = Jar::setup();
    let sender_a = jar.someone();
    let sender_b = jar.someone();
    let creator = jar.someone();

    jar.mint(sender_a, 1_000);
    jar.mint(sender_b, 1_000);

    jar.tip(sender_a, creator, 100).unwrap();
    jar.tip(sender_b, creator, 300).unwrap();

    assert_eq!(jar.total(creator), 400);
    assert_eq!(jar.balance(creator), 400);
    assert_eq!(jar.holds(jar.contract), 400);

    jar.withdraw(creator).unwrap();

    assert_eq!(jar.balance(creator), 0);
    assert_eq!(jar.holds(creator), 400);
    assert_eq!(jar.holds(jar.contract), 0);
}

#[test]
fn test_invalid_tip_amount() {
    let mut jar = Jar::setup();
    let sender = jar.someone();
    let creator = jar.someone();

    jar.mint(sender, 100);

    // Zero tips are rejected to prevent accidental or abusive calls.
    assert_eq!(jar.tip(sender, creator, 0), refused(TipJarError::InvalidAmount));
}

#[test]
fn test_pause_unpause() {
    let mut jar = Jar::setup();
    let admin = jar.admin;

    jar.call(|l| TipJarContract::pause(l, admin)).unwrap();

    let sender = jar.someone();
    let creator = jar.someone();

    // This should fail
    let result = jar.tip(sender, creator, 100);
    assert!(result.is_err());

    // Unpause
    jar.call(|l| TipJarContract::unpause(l, admin)).unwrap();

    // This should now succeed (once we mint tokens)
    jar.mint(sender, 100);
    jar.tip(sender, creator, 100).unwrap();
    assert_eq!(jar.total(creator), 100);
}

#[test]
fn test_pause_admin_only() {
    let mut jar = Jar::setup();
    let non_admin = jar.someone();

    assert_eq!(
        jar.call(|l| TipJarContract::pause(l, non_admin)),
        Err(Failure::Unauthorized)
    );
}

#[test]
fn test_withdraw_blocked_when_paused() {
    let mut jar = Jar::setup();
    let admin = jar.admin;
    let sender = jar.someone();
    let creator = jar.someone();

    jar.mint(sender, 100);
    jar.tip(sender, creator, 100).unwrap();

    jar.call(|l| TipJarContract::pause(l, admin)).unwrap();

    let result = jar.withdraw(creator);
    assert!(result.is_err());
    assert_eq!(result, Err(Failure::Paused));
}

#[test]
fn test_tip_split_50_50() {
    let mut jar = Jar::setup();
    let sender = jar.someone();
    let creator_a = jar.someone();
    let creator_b = jar.someone();

    jar.mint(sender, 1_000);

    let splits = vec![split(creator_a, 5_000), split(creator_b, 5_000)];
    jar.call(|l| TipJarContract::tip_split(l, sender, splits, 200)).unwrap();

    assert_eq!(jar.balance(creator_a), 100);
    assert_eq!(jar.balance(creator_b), 100);
    assert_eq!(jar.total(creator_a), 100);
    assert_eq!(jar.total(creator_b), 100);
}

#[test]
fn test_tip_split_dust_handling() {
    // 3-way equal split of 100 stroops: 33 + 33 + 34 (dust to last)
    let mut jar = Jar::setup();
    let sender = jar.someone();
    let creator_a = jar.someone();
    let creator_b = jar.someone();
    let creator_c = jar.someone();

    jar.mint(sender, 1_000);

    let splits =
        vec![split(creator_a, 3_333), split(creator_b, 3_333), split(creator_c, 3_334)];
    jar.call(|l| TipJarContract::tip_split(l, sender, splits, 100)).unwrap();

    let a = jar.balance(creator_a);
    let b = jar.balance(creator_b);
    let c = jar.balance(creator_c);

    // Each gets floor(100 * 3333 / 10000) = 33; dust (1) goes to last creator.
    assert_eq!(a, 33);
    assert_eq!(b, 33);
    assert_eq!(c, 34);
    assert_eq!(a + b + c, 100);
}

#[test]
fn test_tip_split_invalid_percentage_total() {
    let mut jar = Jar::setup();
    let sender = jar.someone();
    let creator_a = jar.someone();
    let creator_b = jar.someone();

    jar.mint(sender, 1_000);

    // Percentages sum to 9_999: refused with InvalidSplitTotal.
    let splits = vec![split(creator_a, 5_000), split(creator_b, 4_999)];
    let r = jar.call(|l| TipJarContract::tip_split(l, sender, splits, 200));
    assert_eq!(r, refused(TipJarError::InvalidSplitTotal));
    assert_eq!(TipJarError::InvalidSplitTotal.code(), 6);
}

#[test]
fn test_platform_fee_split() {
    // 2.5% fee (250 bps) on a 1000-stroop tip: fee=25, creator gets 975.
    let mut jar = Jar::setup();
    let admin = jar.admin;
    let sender = jar.someone();
    let creator = jar.someone();
    let treasury = jar.someone();

    jar.call(|l| TipJarContract::set_platform_fee(l, admin, 250, treasury)).unwrap();
    jar.mint(sender, 1_000);
    jar.tip(sender, creator, 1_000).unwrap();

    assert_eq!(jar.holds(treasury), 25);
    assert_eq!(jar.balance(creator), 975);
    assert_eq!(TipJarContract::get_total_fees_collected(&jar.ledger), 25);
}

#[test]
fn test_set_platform_fee_non_admin_reverts() {
    let mut jar = Jar::setup();
    let non_admin = jar.someone();
    let treasury = jar.someone();

    assert_eq!(
        jar.call(|l| TipJarContract::set_platform_fee(l, non_admin, 100, treasury)),
        Err(Failure::Unauthorized)
    );
}

#[test]
fn test_set_platform_fee_too_high_reverts() {
    let mut jar = Jar::setup();
    let admin = jar.admin;
    let treasury = jar.someone();

    // 1_001 bps > 1_000 cap: refused with FeeTooHigh.
    assert_eq!(
        jar.call(|l| TipJarContract::set_platform_fee(l, admin, 1_001, treasury)),
        refused(TipJarError::FeeTooHigh)
    );
    assert_eq!(TipJarError::FeeTooHigh.code(), 7);
}

#[test]
fn test_total_fees_collected_accumulates() {
    let mut jar = Jar::setup();
    let admin = jar.admin;
    let sender = jar.someone();
    let creator = jar.someone();
    let treasury = jar.someone();

    // 10% fee (1000 bps).
    jar.call(|l| TipJarContract::set_platform_fee(l, admin, 1_000, treasury)).unwrap();
    jar.mint(sender, 3_000);

    jar.tip(sender, creator, 1_000).unwrap(); // fee = 100
    jar.tip(sender, creator, 1_000).unwrap(); // fee = 100
    jar.tip(sender, creator, 1_000).unwrap(); // fee = 100

    assert_eq!(TipJarContract::get_total_fees_collected(&jar.ledger), 300);
    assert_eq!(jar.balance(creator), 2_700);
}

#[test]
fn test_create_subscription_next_payment() {
    let mut jar = Jar::setup();
    let subscriber = jar.someone();
    let creator = jar.someone();

    jar.mint(subscriber, 10_000);

    // Set a known ledger timestamp.
    jar.ledger.timestamp = 1_000;

    let interval: u64 = 2_592_000; // 30 days in seconds
    let sub_id = jar
        .call(|l| TipJarContract::create_subscription(l, subscriber, creator, 500, interval))
        .unwrap();

    let sub = TipJarContract::get_subscription(&jar.ledger, sub_id).unwrap();
    assert_eq!(sub.next_payment, 1_000 + interval);
    assert!(sub.active);
    assert_eq!(sub.amount, 500);
}

#[test]
fn test_process_subscription_payment_after_interval() {
    let mut jar = Jar::setup();
    let subscriber = jar.someone();
    let creator = jar.someone();

    jar.mint(subscriber, 10_000);

    let interval: u64 = 2_592_000;
    jar.ledger.timestamp = 1_000;
    let sub_id = jar
        .call(|l| TipJarContract::create_subscription(l, subscriber, creator, 500, interval))
        .unwrap();

    // Advance time past the interval.
    jar.ledger.timestamp = 1_000 + interval + 1;

    jar.call(|l| TipJarContract::process_subscription_payment(l, sub_id)).unwrap();

    // Creator's escrow should have received the payment.
    assert_eq!(jar.balance(creator), 500);
    assert_eq!(jar.holds(jar.contract), 500);

    // next_payment advances from scheduled time, not from now (drift prevention).
    let sub = TipJarContract::get_subscription(&jar.ledger, sub_id).unwrap();
    assert_eq!(sub.next_payment, 1_000 + interval + interval);
}

#[test]
fn test_process_subscription_payment_too_early_reverts() {
    let mut jar = Jar::setup();
    let subscriber = jar.someone();
    let creator = jar.someone();

    jar.mint(subscriber, 10_000);
    jar.ledger.timestamp = 1_000;

    let sub_id = jar
        .call(|l| TipJarContract::create_subscription(l, subscriber, creator, 500, 2_592_000))
        .unwrap();

    // Time does not advance: refused with NotDueYet.
    assert_eq!(
        jar.call(|l| TipJarContract::process_subscription_payment(l, sub_id)),
        refused(TipJarError::NotDueYet)
    );
    assert_eq!(TipJarError::NotDueYet.code(), 8);
}

#[test]
fn test_cancelled_subscription_cannot_be_processed() {
    let mut jar = Jar::setup();
    let subscriber = jar.someone();
    let creator = jar.someone();

    jar.mint(subscriber, 10_000);
    jar.ledger.timestamp = 1_000;

    let interval: u64 = 2_592_000;
    let sub_id = jar
        .call(|l| TipJarContract::create_subscription(l, subscriber, creator, 500, interval))
        .unwrap();

    // Cancel as subscriber.
    jar.call(|l| TipJarContract::cancel_subscription(l, sub_id, subscriber)).unwrap();

    // Advance time past due date.
    jar.ledger.timestamp = 1_000 + interval + 1;

    // Refused with SubscriptionNotActive.
    assert_eq!(
        jar.call(|l| TipJarContract::process_subscription_payment(l, sub_id)),
        refused(TipJarError::SubscriptionNotActive)
    );
    assert_eq!(TipJarError::SubscriptionNotActive.code(), 9);
}

// Setup and settings.

#[test]
fn init_happens_once() {
    let mut l = bare_ledger();
    assert_eq!(TipJarContract::init(&mut l, address(1), address(2)), Ok(()));
    assert_eq!(
        l.effects,
        vec![
            Effect::Store(DataKey::Token),
            Effect::Store(DataKey::Admin),
            Effect::Store(DataKey::Paused)
        ]
    );
    assert_eq!(l.storage.token, Some(address(1)));
    assert_eq!(l.storage.admin, Some(address(2)));
    assert_eq!(l.storage.paused, Some(false));
    assert_eq!(
        TipJarContract::init(&mut l, address(3), address(4)),
        refused(TipJarError::AlreadyInitialized)
    );
    assert_eq!(TipJarError::AlreadyInitialized.code(), 1);
    assert_eq!(l.storage.token, Some(address(1)));
    assert_eq!(l.effects.len(), 3);
}

#[test]
fn tip_needs_a_token() {
    let mut l = bare_ledger();
    assert_eq!(
        TipJarContract::tip(&mut l, address(3), address(4), 10),
        refused(TipJarError::TokenNotInitialized)
    );
    assert_eq!(TipJarError::TokenNotInitialized.code(), 2);
    assert_eq!(l.effects, vec![Effect::RequireAuth(address(3))]);
    assert_eq!(TipJarError::InvalidAmount.code(), 3);
}

#[test]
fn admin_calls_before_setup_are_refused() {
    let mut l = bare_ledger();
    assert_eq!(TipJarContract::pause(&mut l, address(2)), Err(Failure::MissingEntry));
    assert_eq!(TipJarContract::unpause(&mut l, address(2)), Err(Failure::MissingEntry));
    assert_eq!(
        TipJarContract::set_platform_fee(&mut l, address(2), 5, address(9)),
        Err(Failure::MissingEntry)
    );
}

#[test]
fn unpause_undoes_pause() {
    let mut l = ready_ledger();
    assert_eq!(TipJarContract::pause(&mut l, address(2)), Ok(()));
    assert_eq!(l.storage.paused, Some(true));
    assert_eq!(
        TipJarContract::create_subscription(&mut l, address(3), address(4), 1, 1),
        Err(Failure::Paused)
    );
    assert_eq!(
        TipJarContract::process_subscription_payment(&mut l, 1),
        Err(Failure::Paused)
    );
    assert_eq!(
        TipJarContract::tip_split(&mut l, address(3), vec![split(address(4), 10_000)], 5),
        Err(Failure::Paused)
    );
    assert_eq!(
        l.effects,
        vec![Effect::RequireAuth(address(2)), Effect::Store(DataKey::Paused)]
    );
    assert_eq!(TipJarContract::unpause(&mut l, address(3)), Err(Failure::Unauthorized));
    assert_eq!(TipJarContract::unpause(&mut l, address(2)), Ok(()));
    assert_eq!(l.storage.paused, Some(false));
}

// Tips and fees.

#[test]
fn fee_is_rounded_towards_zero() {
    assert_eq!(TipJarContract::calc_fee(1_000, 250), 25);
    assert_eq!(TipJarContract::calc_fee(1_999, 10), 1);
    assert_eq!(TipJarContract::calc_fee(999, 10), 0);
    assert_eq!(TipJarContract::calc_fee(-1_999, 10), -1);
    assert_eq!(TipJarContract::calc_fee(0, 1_000), 0);
}

#[test]
fn tip_asks_for_everything_in_order() {
    let mut l = ready_ledger();
    let (admin, treasury, sender, creator) = (address(2), address(9), address(3), address(4));
    assert_eq!(TipJarContract::set_platform_fee(&mut l, admin, 1_000, treasury), Ok(()));
    assert_eq!(
        l.effects,
        vec![
            Effect::RequireAuth(admin),
            Effect::Store(DataKey::PlatformFee),
            Effect::Store(DataKey::TreasuryAddress)
        ]
    );
    l.effects.clear();
    assert_eq!(TipJarContract::tip(&mut l, sender, creator, 95), Ok(()));
    let token = address(1);
    assert_eq!(
        l.effects,
        vec![
            Effect::RequireAuth(sender),
            Effect::Transfer { token, from: sender, to: treasury, amount: 9 },
            Effect::Store(DataKey::TotalFeesCollected),
            Effect::Publish(Event::FeeCollected { treasury, sender, fee: 9 }),
            Effect::Transfer { token, from: sender, to: address(100), amount: 86 },
            Effect::Store(DataKey::CreatorBalance(creator)),
            Effect::Store(DataKey::CreatorTotal(creator)),
            Effect::Publish(Event::Tip { creator, sender, amount: 86 }),
        ]
    );
    assert_eq!(l.storage.total_fees, Some(9));
}

#[test]
fn small_tip_pays_no_fee() {
    let mut l = ready_ledger();
    TipJarContract::set_platform_fee(&mut l, address(2), 1_000, address(9)).unwrap();
    l.effects.clear();
    assert_eq!(TipJarContract::tip(&mut l, address(3), address(4), 9), Ok(()));
    assert_eq!(TipJarContract::get_withdrawable_balance(&l, address(4)), 9);
    assert_eq!(l.storage.total_fees, None);
    assert_eq!(l.effects.len(), 5);
}

#[test]
fn tip_that_overflows_is_refused_and_undone() {
    let mut l = ready_ledger();
    let (sender, creator) = (address(3), address(4));
    assert_eq!(TipJarContract::tip(&mut l, sender, creator, i128::MAX), Ok(()));
    l.effects.clear();
    assert_eq!(TipJarContract::tip(&mut l, sender, creator, 1), Err(Failure::Overflow));
    assert_eq!(
        l.effects,
        vec![
            Effect::RequireAuth(sender),
            Effect::Transfer { token: address(1), from: sender, to: address(100), amount: 1 },
        ]
    );
    assert_eq!(TipJarContract::get_total_tips(&l, creator), i128::MAX);
    TipJarContract::set_platform_fee(&mut l, address(2), 2, address(9)).unwrap();
    l.effects.clear();
    assert_eq!(
        TipJarContract::tip(&mut l, sender, address(5), i128::MAX),
        Err(Failure::Overflow)
    );
    assert_eq!(l.effects, vec![Effect::RequireAuth(sender)]);
}

#[test]
fn fee_without_treasury_is_refused() {
    let mut l = ready_ledger();
    l.storage.platform_fee = Some(100);
    assert_eq!(
        TipJarContract::tip(&mut l, address(3), address(4), 1_000),
        Err(Failure::MissingEntry)
    );
}

#[test]
fn nothing_to_withdraw() {
    let mut jar = Jar::setup();
    let sender = jar.someone();
    let creator = jar.someone();
    assert_eq!(jar.withdraw(creator), refused(TipJarError::NothingToWithdraw));
    assert_eq!(TipJarError::NothingToWithdraw.code(), 4);
    jar.mint(sender, 70);
    jar.tip(sender, creator, 70).unwrap();
    jar.withdraw(creator).unwrap();
    assert_eq!(jar.withdraw(creator), refused(TipJarError::NothingToWithdraw));
    assert_eq!(jar.total(creator), 70);
}

#[test]
fn withdrawal_asks_for_everything_in_order() {
    let mut l = ready_ledger();
    let creator = address(4);
    TipJarContract::tip(&mut l, address(3), creator, 12).unwrap();
    l.effects.clear();
    assert_eq!(TipJarContract::withdraw(&mut l, creator), Ok(()));
    assert_eq!(
        l.effects,
        vec![
            Effect::RequireAuth(creator),
            Effect::Transfer { token: address(1), from: address(100), to: creator, amount: 12 },
            Effect::Store(DataKey::CreatorBalance(creator)),
            Effect::Publish(Event::Withdraw { creator, amount: 12 }),
        ]
    );
}

// Notes.

#[test]
fn longest_message_and_metadata_are_kept() {
    let mut jar = Jar::setup();
    let sender = jar.someone();
    let creator = jar.someone();
    let message = jar.string(&"x".repeat(280));
    let mut metadata = jar.no_metadata();
    metadata.set(jar.string("lang"), jar.string("en"));
    jar.ledger.timestamp = 77;
    jar.mint(sender, 10);
    let (m, d) = (message.clone(), metadata.clone());
    assert_eq!(
        TipJarContract::tip_with_message(&mut jar.ledger, sender, creator, 4, m, d),
        Ok(())
    );
    assert_eq!(
        jar.ledger.effects,
        vec![
            Effect::RequireAuth(sender),
            Effect::Transfer {
                token: plain(&jar.token),
                from: sender,
                to: jar.contract,
                amount: 4
            },
            Effect::Store(DataKey::CreatorBalance(creator)),
            Effect::Store(DataKey::CreatorTotal(creator)),
            Effect::Store(DataKey::CreatorMessages(creator)),
            Effect::Publish(Event::TipMessage {
                creator,
                sender,
                amount: 4,
                message: message.clone(),
                metadata: metadata.clone()
            }),
        ]
    );
    let second = jar.string("again");
    let none = jar.no_metadata();
    jar.call(|l| TipJarContract::tip_with_message(l, sender, creator, 5, second, none)).unwrap();
    let kept = TipJarContract::get_messages(&jar.ledger, creator);
    assert_eq!(kept.len(), 2);
    assert_eq!(kept[0].sender, sender);
    assert_eq!(kept[0].creator, creator);
    assert_eq!(kept[0].amount, 4);
    assert_eq!(kept[0].message, message);
    assert_eq!(kept[0].metadata, metadata);
    assert_eq!(kept[0].timestamp, 77);
    assert_eq!(kept[1].message, jar.string("again"));
    assert_eq!(kept[1].metadata.len(), 0);
    assert_eq!(jar.balance(creator), 9);
}

#[test]
fn message_length_is_counted_in_bytes() {
    let mut jar = Jar::setup();
    let sender = jar.someone();
    let creator = jar.someone();
    // 141 characters of two bytes each.
    let message = jar.string(&"\u{e9}".repeat(141));
    let metadata = jar.no_metadata();
    let r = jar
        .call(|l| TipJarContract::tip_with_message(l, sender, creator, 1, message, metadata));
    assert_eq!(r, refused(TipJarError::MessageTooLong));
}

#[test]
fn messages_of_a_stranger_are_empty() {
    let l = ready_ledger();
    assert_eq!(TipJarContract::get_messages(&l, address(4)).len(), 0);
    assert_eq!(TipJarContract::get_total_tips(&l, address(4)), 0);
    assert_eq!(TipJarContract::get_total_fees_collected(&l), 0);
}

#[test]
fn tip_with_message_takes_no_fee() {
    let mut l = ready_ledger();
    TipJarContract::set_platform_fee(&mut l, address(2), 1_000, address(9)).unwrap();
    let message = HostString::from_str(&l.host, "hi");
    let metadata: Metadata = soroban_sdk::Map::new(&l.host);
    let r = TipJarContract::tip_with_message(
        &mut l, address(3), address(4), 100, message, metadata,
    );
    assert_eq!(r, Ok(()));
    assert_eq!(TipJarContract::get_withdrawable_balance(&l, address(4)), 100);
}

#[test]
fn tip_with_message_of_nothing_is_refused() {
    let mut l = ready_ledger();
    let message = HostString::from_str(&l.host, "hi");
    let metadata: Metadata = soroban_sdk::Map::new(&l.host);
    let r =
        TipJarContract::tip_with_message(&mut l, address(3), address(4), -1, message, metadata);
    assert_eq!(r, refused(TipJarError::InvalidAmount));
}

// Splits.

#[test]
fn split_needs_recipients_and_an_amount() {
    let mut l = ready_ledger();
    assert_eq!(
        TipJarContract::tip_split(&mut l, address(3), vec![], 5),
        refused(TipJarError::InvalidAmount)
    );
    assert_eq!(
        TipJarContract::tip_split(&mut l, address(3), vec![split(address(4), 10_000)], 0),
        refused(TipJarError::InvalidAmount)
    );
    assert_eq!(l.effects.len(), 0);
}

#[test]
fn split_percentages_that_overflow_are_refused() {
    let mut l = ready_ledger();
    let splits = vec![split(address(4), u32::MAX), split(address(5), 10_001)];
    assert_eq!(
        TipJarContract::tip_split(&mut l, address(3), splits, 5),
        Err(Failure::Overflow)
    );
}

#[test]
fn split_may_name_a_creator_twice() {
    let mut l = ready_ledger();
    let sender = address(3);
    let splits = vec![split(address(4), 2_500), split(address(5), 5_000), split(address(4), 2_500)];
    assert_eq!(TipJarContract::tip_split(&mut l, sender, splits, 10), Ok(()));
    // 2 + 5 + 3
    assert_eq!(TipJarContract::get_withdrawable_balance(&l, address(4)), 5);
    assert_eq!(TipJarContract::get_withdrawable_balance(&l, address(5)), 5);
    let token = address(1);
    let mut asked = vec![
        Effect::RequireAuth(sender),
        Effect::Transfer { token, from: sender, to: address(100), amount: 10 },
    ];
    for (creator, amount) in [(address(4), 2), (address(5), 5), (address(4), 3)] {
        asked.push(Effect::Store(DataKey::CreatorBalance(creator)));
        asked.push(Effect::Store(DataKey::CreatorTotal(creator)));
        asked.push(Effect::Publish(Event::Tip { creator, sender, amount }));
    }
    assert_eq!(l.effects, asked);
}

#[test]
fn split_that_overflows_is_refused_and_undone() {
    let mut l = ready_ledger();
    let sender = address(3);
    TipJarContract::tip(&mut l, sender, address(5), i128::MAX).unwrap();
    l.effects.clear();
    let splits = vec![split(address(4), 5_000), split(address(5), 5_000)];
    assert_eq!(
        TipJarContract::tip_split(&mut l, sender, splits, 10),
        Err(Failure::Overflow)
    );
    assert_eq!(TipJarContract::get_withdrawable_balance(&l, address(4)), 0);
    assert_eq!(TipJarContract::get_total_tips(&l, address(4)), 0);
    // The first recipient was reached.
    assert_eq!(l.effects.len(), 5);
    l.effects.clear();
    let splits = vec![split(address(4), 5_000), split(address(6), 5_000)];
    assert_eq!(
        TipJarContract::tip_split(&mut l, sender, splits, i128::MAX),
        Err(Failure::Overflow)
    );
    assert_eq!(l.effects.len(), 2);
}

#[test]
fn split_keeps_the_whole_tip_in_escrow() {
    let mut jar = Jar::setup();
    let sender = jar.someone();
    let creators = [jar.someone(), jar.someone(), jar.someone()];
    jar.mint(sender, 1_000);
    let splits = vec![split(creators[0], 1), split(creators[1], 9_998), split(creators[2], 1)];
    jar.call(|l| TipJarContract::tip_split(l, sender, splits, 999)).unwrap();
    assert_eq!(jar.balance(creators[0]), 0);
    assert_eq!(jar.balance(creators[1]), 998);
    assert_eq!(jar.balance(creators[2]), 1);
    assert_eq!(jar.holds(jar.contract), 999);
}

// Subscriptions.

#[test]
fn subscriptions_are_numbered_and_listed() {
    let mut l = ready_ledger();
    let (a, b, creator) = (address(3), address(5), address(4));
    assert_eq!(TipJarContract::create_subscription(&mut l, a, creator, 5, 10), Ok(1));
    assert_eq!(
        l.effects,
        vec![
            Effect::RequireAuth(a),
            Effect::Store(DataKey::SubCounter),
            Effect::Store(DataKey::Subscription(1)),
            Effect::Store(DataKey::SubscriberSubs(a)),
        ]
    );
    assert_eq!(TipJarContract::create_subscription(&mut l, b, creator, 5, 10), Ok(2));
    assert_eq!(TipJarContract::create_subscription(&mut l, a, creator, 6, 20), Ok(3));
    let listed = l.storage.subscriber_subs.get(a).unwrap();
    assert_eq!(listed.len(), 2);
    assert_eq!(listed.get(0), Some(1));
    assert_eq!(listed.get(1), Some(3));
    assert_eq!(l.storage.subscriber_subs.get(b).unwrap().get(0), Some(2));
    assert_eq!(l.storage.sub_counter, Some(3));
    let third = TipJarContract::get_subscription(&l, 3).unwrap();
    assert_eq!((third.subscriber, third.creator), (a, creator));
    assert_eq!((third.interval, third.next_payment), (20, 70));
}

#[test]
fn subscription_needs_an_amount() {
    let mut l = ready_ledger();
    assert_eq!(
        TipJarContract::create_subscription(&mut l, address(3), address(4), 0, 10),
        Err(Failure::Error(TipJarError::InvalidAmount))
    );
    assert_eq!(l.storage.sub_counter, None);
}

#[test]
fn subscription_that_overflows_is_refused_and_undone() {
    let mut l = ready_ledger();
    assert_eq!(
        TipJarContract::create_subscription(&mut l, address(3), address(4), 5, u64::MAX),
        Err(Failure::Overflow)
    );
    assert_eq!(l.storage.sub_counter, None);
    l.storage.sub_counter = Some(u64::MAX);
    assert_eq!(
        TipJarContract::create_subscription(&mut l, address(3), address(4), 5, 1),
        Err(Failure::Overflow)
    );
}

#[test]
fn unknown_subscription_is_not_found() {
    let mut l = ready_ledger();
    let e = Failure::Error(TipJarError::SubscriptionNotFound);
    assert_eq!(TipJarContract::get_subscription(&l, 1), Err(e));
    assert_eq!(TipJarContract::process_subscription_payment(&mut l, 1), Err(e));
    assert_eq!(TipJarContract::cancel_subscription(&mut l, 1, address(3)), Err(e));
    assert_eq!(TipJarError::SubscriptionNotFound.code(), 10);
}

#[test]
fn late_payments_do_not_shift_the_schedule() {
    let mut l = ready_ledger();
    let (subscriber, creator) = (address(3), address(4));
    TipJarContract::create_subscription(&mut l, subscriber, creator, 5, 10).unwrap();
    l.timestamp = 95;
    l.effects.clear();
    assert_eq!(TipJarContract::process_subscription_payment(&mut l, 1), Ok(()));
    assert_eq!(
        l.effects,
        vec![
            Effect::RequireAuth(subscriber),
            Effect::Transfer {
                token: address(1),
                from: subscriber,
                to: address(100),
                amount: 5
            },
            Effect::Store(DataKey::CreatorBalance(creator)),
            Effect::Store(DataKey::CreatorTotal(creator)),
            Effect::Publish(Event::Tip { creator, sender: subscriber, amount: 5 }),
            Effect::Store(DataKey::Subscription(1)),
        ]
    );
    // Due at 60, 70, 80 and 90; the next one is due at 100.
    for _ in 0..3 {
        assert_eq!(TipJarContract::process_subscription_payment(&mut l, 1), Ok(()));
    }
    assert_eq!(
        TipJarContract::process_subscription_payment(&mut l, 1),
        refused(TipJarError::NotDueYet)
    );
    assert_eq!(TipJarContract::get_subscription(&l, 1).unwrap().next_payment, 100);
    assert_eq!(TipJarContract::get_withdrawable_balance(&l, creator), 20);
}

#[test]
fn payment_at_the_due_second_is_accepted() {
    let mut l = ready_ledger();
    TipJarContract::create_subscription(&mut l, address(3), address(4), 5, 10).unwrap();
    l.timestamp = 60;
    assert_eq!(TipJarContract::process_subscription_payment(&mut l, 1), Ok(()));
}

#[test]
fn payment_whose_schedule_overflows_is_refused_and_undone() {
    let mut l = ready_ledger();
    TipJarContract::create_subscription(&mut l, address(3), address(4), 5, u64::MAX - 50).unwrap();
    l.timestamp = u64::MAX;
    assert_eq!(
        TipJarContract::process_subscription_payment(&mut l, 1),
        Err(Failure::Overflow)
    );
    assert_eq!(TipJarContract::get_withdrawable_balance(&l, address(4)), 0);
}

#[test]
fn only_the_parties_cancel() {
    let mut l = ready_ledger();
    let (subscriber, creator) = (address(3), address(4));
    TipJarContract::create_subscription(&mut l, subscriber, creator, 5, 10).unwrap();
    l.effects.clear();
    assert_eq!(
        TipJarContract::cancel_subscription(&mut l, 1, address(2)),
        Err(Failure::Unauthorized)
    );
    assert_eq!(l.effects.len(), 0);
    assert_eq!(TipJarContract::cancel_subscription(&mut l, 1, creator), Ok(()));
    assert_eq!(
        l.effects,
        vec![Effect::RequireAuth(creator), Effect::Store(DataKey::Subscription(1))]
    );
    assert_eq!(
        TipJarContract::cancel_subscription(&mut l, 1, subscriber),
        refused(TipJarError::SubscriptionNotActive)
    );
}

#[test]
fn subscription_cannot_be_cancelled_during_a_pause() {
    let mut l = ready_ledger();
    TipJarContract::create_subscription(&mut l, address(3), address(4), 5, 10).unwrap();
    TipJarContract::pause(&mut l, address(2)).unwrap();
    l.effects.clear();
    for caller in [address(3), address(4), address(7)] {
        assert_eq!(
            TipJarContract::cancel_subscription(&mut l, 1, caller),
            Err(Failure::Paused)
        );
    }
    assert_eq!(TipJarContract::cancel_subscription(&mut l, 2, address(3)), Err(Failure::Paused));
    assert!(TipJarContract::get_subscription(&l, 1).unwrap().active);
    assert_eq!(l.effects.len(), 0);
    TipJarContract::unpause(&mut l, address(2)).unwrap();
    assert_eq!(TipJarContract::cancel_subscription(&mut l, 1, address(3)), Ok(()));
    assert!(!TipJarContract::get_subscription(&l, 1).unwrap().active);
}

#[test]
fn due_time_counts_payments_whatever_comes_between() {
    let mut l = ready_ledger();
    let (subscriber, creator) = (address(3), address(4));
    assert_eq!(TipJarContract::create_subscription(&mut l, address(5), creator, 1, 3), Ok(1));
    l.timestamp = 1_000;
    assert_eq!(TipJarContract::create_subscription(&mut l, subscriber, creator, 7, 10), Ok(2));
    l.timestamp = 5_000;
    TipJarContract::process_subscription_payment(&mut l, 2).unwrap();
    TipJarContract::process_subscription_payment(&mut l, 1).unwrap();
    TipJarContract::tip(&mut l, subscriber, creator, 20).unwrap();
    TipJarContract::withdraw(&mut l, creator).unwrap();
    assert_eq!(
        TipJarContract::create_subscription(&mut l, subscriber, creator, 0, 10),
        Err(Failure::Error(TipJarError::InvalidAmount))
    );
    assert_eq!(TipJarContract::create_subscription(&mut l, subscriber, creator, 9, 1), Ok(3));
    TipJarContract::process_subscription_payment(&mut l, 2).unwrap();
    TipJarContract::cancel_subscription(&mut l, 1, creator).unwrap();
    // Two payments, so the third interval after creation is due.
    assert_eq!(TipJarContract::get_subscription(&l, 2).unwrap().next_payment, 1_000 + 10 * 3);
    assert_eq!(TipJarContract::get_subscription(&l, 1).unwrap().next_payment, 50 + 3 * 2);
    assert_eq!(TipJarContract::get_subscription(&l, 3).unwrap().next_payment, 5_001);
}

// Across calls.

#[test]
fn escrow_is_the_sum_of_balances() {
    let mut jar = Jar::setup();
    let admin = jar.admin;
    let (sender, a, b, treasury) = (jar.someone(), jar.someone(), jar.someone(), jar.someone());
    jar.mint(sender, 10_000);
    jar.tip(sender, a, 100).unwrap();
    jar.call(|l| TipJarContract::set_platform_fee(l, admin, 300, treasury)).unwrap();
    jar.tip(sender, b, 333).unwrap();
    let splits = vec![split(a, 3_333), split(b, 6_667)];
    jar.call(|l| TipJarContract::tip_split(l, sender, splits, 101)).unwrap();
    jar.call(|l| TipJarContract::create_subscription(l, sender, a, 50, 0)).unwrap();
    jar.call(|l| TipJarContract::process_subscription_payment(l, 1)).unwrap();
    assert_eq!(jar.tip(sender, a, -5), refused(TipJarError::InvalidAmount));
    jar.withdraw(b).unwrap();
    assert_eq!(jar.balance(b), 0);
    assert_eq!(jar.holds(jar.contract), jar.balance(a) + jar.balance(b));
    assert_eq!(jar.holds(treasury), 9);
    assert_eq!(jar.holds(b), 333 - 9 + 68);
    assert_eq!(jar.total(b), 333 - 9 + 68);
    assert_eq!(jar.total(a), 100 + 33 + 50);
}

#[test]
fn addresses_of_different_kinds_differ() {
    let mut l = ready_ledger();
    let account = address(4);
    let contract = Address { kind: AddressKind::Contract, ..account };
    TipJarContract::tip(&mut l, address(3), account, 5).unwrap();
    assert_eq!(TipJarContract::get_withdrawable_balance(&l, account), 5);
    assert_eq!(TipJarContract::get_withdrawable_balance(&l, contract), 0);
}

#[test]
fn pause_keeps_the_contract_as_it_is() {
    let mut l = ready_ledger();
    TipJarContract::tip(&mut l, address(3), address(4), 5).unwrap();
    TipJarContract::pause(&mut l, address(2)).unwrap();
    l.effects.clear();
    assert_eq!(TipJarContract::withdraw(&mut l, address(4)), Err(Failure::Paused));
    assert_eq!(TipJarContract::tip(&mut l, address(3), address(4), 5), Err(Failure::Paused));
    assert_eq!(
        TipJarContract::init(&mut l, address(5), address(6)),
        refused(TipJarError::AlreadyInitialized)
    );
    assert_eq!(l.effects.len(), 0);
    assert_eq!(TipJarContract::pause(&mut l, address(2)), Ok(()));
    assert_eq!(l.storage.paused, Some(true));
    assert_eq!(TipJarContract::get_withdrawable_balance(&l, address(4)), 5);
    // The settings are still the administrator's.
    assert_eq!(TipJarContract::set_platform_fee(&mut l, address(2), 7, address(9)), Ok(()));
    assert_eq!(l.storage.platform_fee, Some(7));
}

#[test]
fn announcements_account_for_tips_and_fees() {
    let mut l = ready_ledger();
    let (sender, creator, other) = (address(3), address(4), address(5));
    TipJarContract::tip(&mut l, sender, creator, 40).unwrap();
    TipJarContract::set_platform_fee(&mut l, address(2), 1_000, address(9)).unwrap();
    TipJarContract::tip(&mut l, sender, creator, 19).unwrap();
    TipJarContract::withdraw(&mut l, creator).unwrap();
    let splits = vec![split(other, 9_000), split(creator, 1_000)];
    TipJarContract::tip_split(&mut l, sender, splits, 11).unwrap();
    let message = HostString::from_str(&l.host, "hi");
    let metadata: Metadata = soroban_sdk::Map::new(&l.host);
    TipJarContract::tip_with_message(&mut l, sender, creator, 3, message, metadata).unwrap();
    let (mut received, mut withdrawn, mut fees) = (0i128, 0i128, 0i128);
    for effect in &l.effects {
        match effect {
            Effect::Publish(Event::Tip { creator: c, amount, .. }) if *c == creator => {
                received += amount
            }
            Effect::Publish(Event::TipMessage { creator: c, amount, .. }) if *c == creator => {
                received += amount
            }
            Effect::Publish(Event::Withdraw { creator: c, amount }) if *c == creator => {
                withdrawn += amount
            }
            Effect::Publish(Event::FeeCollected { fee, .. }) => fees += fee,
            _ => {}
        }
    }
    assert_eq!((received, withdrawn, fees), (40 + 18 + 2 + 3, 58, 1));
    assert_eq!(TipJarContract::get_total_tips(&l, creator), received);
    assert_eq!(TipJarContract::get_withdrawable_balance(&l, creator), received - withdrawn);
    assert_eq!(TipJarContract::get_total_fees_collected(&l), fees);
}

#[test]
fn call_rests_on_the_entries_that_it_reads() {
    let mut whole = ready_ledger();
    TipJarContract::tip(&mut whole, address(3), address(4), 40).unwrap();
    TipJarContract::tip(&mut whole, address(3), address(5), 50).unwrap();
    whole.effects.clear();
    // The settings and the entries of one creator.
    let mut part = ready_ledger();
    part.storage.balances.set(address(4), 40);
    part.storage.totals.set(address(4), 40);
    assert_eq!(TipJarContract::tip(&mut whole, address(3), address(4), 2), Ok(()));
    assert_eq!(TipJarContract::tip(&mut part, address(3), address(4), 2), Ok(()));
    assert_eq!(whole.effects, part.effects);
    assert_eq!(TipJarContract::get_total_tips(&part, address(4)), 42);
    // The other creator is as before.
    assert_eq!(TipJarContract::get_withdrawable_balance(&whole, address(5)), 50);
    assert_eq!(TipJarContract::get_total_tips(&whole, address(5)), 50);
}

#[test]
fn greatest_fee_is_a_tenth() {
    let mut l = ready_ledger();
    assert_eq!(TipJarContract::set_platform_fee(&mut l, address(2), 1_000, address(9)), Ok(()));
    TipJarContract::tip(&mut l, address(3), address(4), 12_345).unwrap();
    assert_eq!(TipJarContract::get_total_fees_collected(&l), 1_234);
    assert_eq!(TipJarContract::get_withdrawable_balance(&l, address(4)), 11_111);
}

#[test]
fn fees_are_rounded_tip_by_tip() {
    let mut l = ready_ledger();
    let (admin, treasury) = (address(2), address(9));
    TipJarContract::tip(&mut l, address(3), address(4), 999).unwrap();
    TipJarContract::set_platform_fee(&mut l, admin, 1_000, treasury).unwrap();
    TipJarContract::tip(&mut l, address(3), address(4), 19).unwrap();
    TipJarContract::tip(&mut l, address(3), address(5), 19).unwrap();
    TipJarContract::set_platform_fee(&mut l, admin, 33, treasury).unwrap();
    TipJarContract::tip(&mut l, address(3), address(4), 1_000).unwrap();
    // 0 + 1 + 1 + 3, where one fee on the sum would have been more.
    assert_eq!(TipJarContract::get_total_fees_collected(&l), 5);
}

#[test]
fn notes_are_kept_in_order() {
    let mut l = ready_ledger();
    let mut send = |creator: Address, text: &str, amount: i128| {
        let message = HostString::from_str(&l.host, text);
        let metadata: Metadata = soroban_sdk::Map::new(&l.host);
        TipJarContract::tip_with_message(&mut l, address(3), creator, amount, message, metadata)
    };
    assert_eq!(send(address(4), "one", 1), Ok(()));
    assert_eq!(send(address(5), "other", 1), Ok(()));
    assert_eq!(send(address(4), "none", 0), refused(TipJarError::InvalidAmount));
    assert_eq!(send(address(4), "two", 2), Ok(()));
    let kept = TipJarContract::get_messages(&l, address(4));
    assert_eq!(kept.len(), 2);
    assert_eq!(kept[0].message, HostString::from_str(&l.host, "one"));
    assert_eq!(kept[1].message, HostString::from_str(&l.host, "two"));
}

#[test]
fn totals_grow_by_the_split_amount() {
    let mut l = ready_ledger();
    TipJarContract::tip(&mut l, address(3), address(4), 10).unwrap();
    let splits = vec![split(address(4), 3_333), split(address(5), 3_333), split(address(6), 3_334)];
    TipJarContract::tip_split(&mut l, address(3), splits, 101).unwrap();
    let totals = [address(4), address(5), address(6)]
        .map(|c| TipJarContract::get_total_tips(&l, c));
    assert_eq!(totals, [10 + 33, 33, 35]);
    assert_eq!(totals.iter().sum::<i128>(), 10 + 101);
}
