use cfr_atlas::requests::{
    check_backend_range, check_backend_request, check_backend_shape, check_conformance_request,
};
use cfr_atlas::{CfrError, PageKey};

#[test]
fn reference_backend_shape_needs_tokens_layers_and_width() {
    assert_eq!(check_backend_shape(4, 2, 8), Ok(()));
    assert_eq!(
        check_backend_shape(0, 2, 8),
        Err(CfrError::InvalidLedger("reference backend requires tokens"))
    );
    assert_eq!(
        check_backend_shape(4, 0, 8),
        Err(CfrError::InvalidConfig("layers must be non-zero"))
    );
    assert_eq!(
        check_backend_shape(4, 2, 0),
        Err(CfrError::InvalidConfig("head_dim must be non-zero"))
    );
}

#[test]
fn reference_backend_requests_are_checked_in_order() {
    let key = PageKey::new(1, 0, 2);
    assert_eq!(check_backend_request(8, 2, 2, 4, key, &(2..5), 4, 12, 12), Ok(()));
    assert_eq!(
        check_backend_range(8, key, &(3..5)),
        Err(CfrError::InvalidPage { key, message: "range start must equal key.start_token" })
    );
    assert_eq!(
        check_backend_range(8, key, &(2..2)),
        Err(CfrError::InvalidPage { key, message: "token range must be non-empty" })
    );
    assert_eq!(
        check_backend_range(4, key, &(2..5)),
        Err(CfrError::InvalidLedger("token range exceeds ledger length"))
    );
    assert_eq!(
        check_backend_request(8, 1, 2, 4, key, &(2..5), 4, 12, 12),
        Err(CfrError::InvalidPage { key, message: "layer is out of range" })
    );
    let far_head = PageKey::new(0, 2, 2);
    assert_eq!(
        check_backend_request(8, 2, 2, 4, far_head, &(2..5), 4, 12, 12),
        Err(CfrError::InvalidPage { key: far_head, message: "KV head is out of range" })
    );
    assert_eq!(
        check_backend_request(8, 2, 2, 4, key, &(2..5), 8, 12, 12),
        Err(CfrError::Dimension { name: "head_dim", expected: 4, got: 8 })
    );
    assert_eq!(
        check_backend_request(8, 2, 2, 4, key, &(2..5), 4, 11, 12),
        Err(CfrError::Dimension { name: "backend K output", expected: 12, got: 11 })
    );
    assert_eq!(
        check_backend_request(8, 2, 2, 4, key, &(2..5), 4, 12, 13),
        Err(CfrError::Dimension { name: "backend V output", expected: 12, got: 13 })
    );
    assert_eq!(
        check_backend_request(usize::MAX, 2, 2, usize::MAX, PageKey::new(0, 0, 0), &(0..4), usize::MAX, 0, 0),
        Err(CfrError::CapacityOverflow { name: "reference backend output length" })
    );
}

#[test]
fn conformance_requests_measure_tokens_and_page_length() {
    let key = PageKey::new(0, 1, 4);
    assert_eq!(check_conformance_request(true, key, &(4..7), 2, 6, 6), Ok((3, 6)));
    assert_eq!(
        check_conformance_request(false, key, &(4..7), 2, 6, 6),
        Err(CfrError::InvalidConfig("conformance tolerance must be finite and non-negative"))
    );
    assert_eq!(
        check_conformance_request(true, key, &(5..7), 2, 6, 6),
        Err(CfrError::InvalidPage {
            key,
            message: "conformance range start must equal key.start_token"
        })
    );
    assert_eq!(
        check_conformance_request(true, key, &(4..4), 2, 6, 6),
        Err(CfrError::InvalidPage { key, message: "conformance range must be non-empty" })
    );
    assert_eq!(
        check_conformance_request(true, key, &(4..7), 0, 6, 6),
        Err(CfrError::InvalidConfig("head_dim must be non-zero"))
    );
    assert_eq!(
        check_conformance_request(true, key, &(4..7), 2, 5, 6),
        Err(CfrError::Dimension { name: "reference K", expected: 6, got: 5 })
    );
    assert_eq!(
        check_conformance_request(true, key, &(4..7), 2, 6, 7),
        Err(CfrError::Dimension { name: "reference V", expected: 6, got: 7 })
    );
}
