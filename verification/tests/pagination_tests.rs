use pobsd_server::pagination::{Page, Paginator};

#[test]
fn test_paginator_no_items() {
    let paginator = Paginator::new(0, 10);
    let page = paginator.page(1);
    assert_eq!(page, None);
}

#[test]
fn test_paginator_no_items_no_items_per_page() {
    let paginator = Paginator::new(0, 0);
    let page = paginator.page(1);
    assert_eq!(page, None);
}

#[test]
fn test_paginator_no_items_per_page() {
    let paginator = Paginator::new(100, 0);
    let page = paginator.page(1);
    assert_eq!(page, None);
}

#[test]
fn test_paginator_after_last_page() {
    let paginator = Paginator::new(100, 30);
    let page = paginator.page(10);
    assert_eq!(page, None);
}

#[test]
fn test_paginator_less_items_than_items_per_page() {
    let paginator = Paginator::new(10, 50);
    let page = paginator.page(1);
    let expected_page = Page { first_element: 0, last_element: 9, current_page: 1, last_page: 1 };
    assert_eq!(page, Some(expected_page));
}

#[test]
fn test_paginator_more_items_than_items_per_page() {
    let paginator = Paginator::new(60, 50);
    let page1 = paginator.page(1);
    let page2 = paginator.page(2);
    let expected_page1 = Page { first_element: 0, last_element: 49, current_page: 1, last_page: 2 };
    let expected_page2 = Page { first_element: 50, last_element: 59, current_page: 2, last_page: 2 };
    assert_eq!(page1, Some(expected_page1));
    assert_eq!(page2, Some(expected_page2));
}

#[test]
fn test_paginator_item_number_multiple_of_page_number_last_page() {
    let paginator = Paginator::new(100, 50);
    let page1 = paginator.page(1);
    let page2 = paginator.page(2);
    let expected_page1 = Page { first_element: 0, last_element: 49, current_page: 1, last_page: 2 };
    let expected_page2 = Page { first_element: 50, last_element: 99, current_page: 2, last_page: 2 };
    assert_eq!(page1, Some(expected_page1));
    assert_eq!(page2, Some(expected_page2));
}

#[test]
fn test_paginator_more_then_two_page_item_number_multiple_of_page_number_last_page() {
    let paginator = Paginator::new(150, 50);
    let page1 = paginator.page(1);
    let page2 = paginator.page(2);
    let page3 = paginator.page(3);
    let expected_page1 = Page { first_element: 0, last_element: 49, current_page: 1, last_page: 3 };
    let expected_page2 = Page { first_element: 50, last_element: 99, current_page: 2, last_page: 3 };
    let expected_page3 = Page { first_element: 100, last_element: 149, current_page: 3, last_page: 3 };
    assert_eq!(page1, Some(expected_page1));
    assert_eq!(page2, Some(expected_page2));
    assert_eq!(page3, Some(expected_page3));
}

#[test]
fn test_paginator_more_then_two_page_item_number_not_multiple_of_page_number_last_page() {
    let paginator = Paginator::new(140, 50);
    let page1 = paginator.page(1);
    let page2 = paginator.page(2);
    let page3 = paginator.page(3);
    let expected_page1 = Page { first_element: 0, last_element: 49, current_page: 1, last_page: 3 };
    let expected_page2 = Page { first_element: 50, last_element: 99, current_page: 2, last_page: 3 };
    let expected_page3 = Page { first_element: 100, last_element: 139, current_page: 3, last_page: 3 };
    assert_eq!(page1, Some(expected_page1));
    assert_eq!(page2, Some(expected_page2));
    assert_eq!(page3, Some(expected_page3));
}

// The windows of consecutive pages are contiguous, never overlap, and
// together cover every item exactly once.
#[test]
fn test_paginator_windows_partition_items() {
    let total = 100;
    let per_page = 30;
    let paginator = Paginator::new(total, per_page);
    let mut covered = vec![false; total];
    let mut previous_end: Option<usize> = None;
    let mut page_number = 1;
    while let Some(page) = paginator.page(page_number) {
        if let Some(end) = previous_end {
            assert_eq!(page.first_element, end + 1);
        } else {
            assert_eq!(page.first_element, 0);
        }
        for i in page.first_element..=page.last_element {
            assert!(!covered[i]);
            covered[i] = true;
        }
        previous_end = Some(page.last_element);
        page_number += 1;
    }
    assert!(covered.iter().all(|c| *c));
    assert_eq!(previous_end, Some(total - 1));
}

#[test]
fn test_paginator_rejects_page_zero() {
    let paginator = Paginator::new(100, 10);
    assert_eq!(paginator.page(0), None);
}
