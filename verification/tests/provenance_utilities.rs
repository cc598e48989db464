use contract::common::error::ContractError;
use contract::common::messages::{
    AccessGrant, ProvMsg, ACCESS_ADMIN, ACCESS_BURN, ACCESS_DELETE, ACCESS_DEPOSIT, ACCESS_MINT, ACCESS_TRANSFER,
    ACCESS_WITHDRAW,
};
use contract::common::security::Coin;
use contract::util::mock_marker::MockMarker;
use contract::util::provenance_utilities::{
    format_coin_display, get_single_marker_coin_holding, marker_has_admin, marker_has_permissions, mint_marker_supply,
    transfer_marker_coins, validate_address, validate_string, Access, Balance, ProtoCoin,
};

fn holdings_of(marker: &MockMarker) -> Vec<Balance> {
    vec![Balance {
        address: marker.address.clone(),
        coins: marker
            .coins
            .iter()
            .map(|c| ProtoCoin { denom: c.denom.clone(), amount: c.amount.to_string() })
            .collect(),
    }]
}

#[test]
fn test_marker_has_permissions() {
    let target_address = "target_address".to_string();
    let marker = MockMarker {
        permissions: vec![AccessGrant {
            address: target_address.clone(),
            permissions: vec![ACCESS_ADMIN, ACCESS_MINT, ACCESS_DELETE],
        }],
        ..MockMarker::default()
    }
    .to_marker_account();
    let other = "not the same address".to_string();
    assert!(marker_has_permissions(&marker, &target_address, &[]));
    assert!(marker_has_permissions(&marker, &target_address, &[Access::Admin]));
    assert!(marker_has_permissions(&marker, &target_address, &[Access::Admin, Access::Mint, Access::Delete]));
    assert!(!marker_has_permissions(&marker, &other, &[]));
    assert!(!marker_has_permissions(&marker, &other, &[Access::Admin]));
    assert!(!marker_has_permissions(&marker, &other, &[Access::Admin, Access::Mint, Access::Delete]));
    assert!(!marker_has_permissions(&marker, &target_address, &[Access::Admin, Access::Burn]));
}

#[test]
fn test_marker_has_admin() {
    let marker = MockMarker {
        permissions: vec![
            AccessGrant { address: "admin1".to_string(), permissions: vec![ACCESS_ADMIN] },
            AccessGrant {
                address: "admin2".to_string(),
                permissions: vec![ACCESS_ADMIN, ACCESS_MINT, ACCESS_BURN, ACCESS_DEPOSIT, ACCESS_TRANSFER, ACCESS_DELETE],
            },
            AccessGrant { address: "normie2".to_string(), permissions: vec![ACCESS_WITHDRAW, ACCESS_DEPOSIT] },
        ],
        ..MockMarker::default()
    }
    .to_marker_account();
    assert!(marker_has_admin(&marker, &"admin1".to_string()));
    assert!(marker_has_admin(&marker, &"admin2".to_string()));
    assert!(!marker_has_admin(&marker, &"normie2".to_string()));
    assert!(!marker_has_admin(&marker, &"missing".to_string()));
}

fn holding_error(marker: MockMarker) -> String {
    let holdings = holdings_of(&marker);
    let account = marker.to_marker_account();
    match get_single_marker_coin_holding(&Ok(holdings), &account).expect_err("expected an error") {
        ContractError::InvalidMarker { message } => message,
        e => panic!("unexpected error encountered: {:?}", e),
    }
}

#[test]
fn test_get_single_marker_coin_holding() {
    let no_denom_marker = MockMarker {
        address: "nodenomaddr".to_string(),
        denom: "nodenom".to_string(),
        coins: vec![],
        ..MockMarker::default()
    };
    assert_eq!(
        holding_error(no_denom_marker),
        "expected marker [nodenomaddr] to have a single coin entry for denom [nodenom], but it did not. Holdings: []",
    );
    let invalid_coin_marker = MockMarker {
        address: "badcoinaddr".to_string(),
        denom: "badcoin".to_string(),
        coins: vec![Coin::new(100, "othercoin"), Coin::new(15, "moredifferentcoin")],
        ..MockMarker::default()
    };
    assert_eq!(
        holding_error(invalid_coin_marker),
        "expected marker [badcoinaddr] to have a single coin entry for denom [badcoin], but it did not. Holdings: [100othercoin, 15moredifferentcoin]",
    );
    let duplicate_coin_marker = MockMarker {
        address: "weirdaddr".to_string(),
        denom: "weird".to_string(),
        coins: vec![Coin::new(12, "weird"), Coin::new(15, "weird")],
        ..MockMarker::default()
    };
    assert_eq!(
        holding_error(duplicate_coin_marker),
        "expected marker [weirdaddr] to have a single coin entry for denom [weird], but it did not. Holdings: [12weird, 15weird]",
    );
    let good_marker = MockMarker {
        address: "goodaddr".to_string(),
        denom: "good".to_string(),
        coins: vec![Coin::new(150, "good")],
        ..MockMarker::default()
    };
    let holdings = holdings_of(&good_marker);
    let marker_coin = get_single_marker_coin_holding(&Ok(holdings), &good_marker.to_marker_account()).unwrap();
    assert_eq!("150", marker_coin.amount.as_str());
    assert_eq!("good", marker_coin.denom);
}

#[test]
fn coin_display_joins_amounts_and_denominations() {
    let coins = vec![
        ProtoCoin { denom: "acoin".to_string(), amount: "12".to_string() },
        ProtoCoin { denom: "bcoin".to_string(), amount: "13".to_string() },
    ];
    assert_eq!("12acoin, 13bcoin", format_coin_display(&coins));
    assert_eq!("", format_coin_display(&[]));
}

#[test]
fn message_builders_check_their_inputs() {
    let err = mint_marker_supply(0, "denom".to_string(), "contract".to_string()).unwrap_err();
    assert_eq!("Generic error: mint amount must be > 0", err.message());
    let msg = transfer_marker_coins(5, "denom".to_string(), "to".to_string(), "from".to_string(), "contract".to_string())
        .unwrap();
    assert_eq!(
        ProvMsg::Transfer {
            amount: Coin::new(5, "denom"),
            administrator: "contract".to_string(),
            from_address: "from".to_string(),
            to_address: "to".to_string(),
        },
        msg
    );
    transfer_marker_coins(5, " ".to_string(), "to".to_string(), "from".to_string(), "contract".to_string())
        .unwrap_err();
}

#[test]
fn blank_text_is_refused_and_other_text_kept() {
    let err = validate_string("\u{2003}\t ".to_string(), "denom").unwrap_err();
    assert_eq!("Generic error: denom must not be empty", err.message());
    assert_eq!(" a ", validate_string(" a ".to_string(), "denom").unwrap());
    assert_eq!("Generic error: address must not be empty", validate_address("\n".to_string()).unwrap_err().message());
    assert_eq!("addr", validate_address("addr".to_string()).unwrap());
}
