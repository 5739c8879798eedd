use job_board::{BoardError, JobBoard, Posting, Reply};

fn robert() -> String {
    "robert.testnet".to_string()
}

fn mike() -> String {
    "mike.testnet".to_string()
}

fn post(board: &mut JobBoard, caller: String) -> Posting {
    board
        .add_posting(
            caller,
            "title".to_string(),
            "description".to_string(),
            "contact".to_string(),
        )
        .unwrap()
}

fn reply(board: &mut JobBoard, github: &str, posting_id: u32) -> Reply {
    board
        .add_reply(
            github.to_string(),
            "description".to_string(),
            "contact".to_string(),
            posting_id,
        )
        .unwrap()
}

#[test]
fn create_posting() {
    let mut contract = JobBoard::new();
    let mut number_of_posts = contract.posting_count();
    let mut current_posting_id = contract.current_posting_id();
    assert_eq!(0, number_of_posts, "Expected posts to be empty on initialize.");
    assert_eq!(0, current_posting_id, "Posting ID should be 0 on initialize.");
    contract
        .add_posting(
            robert(),
            "title".to_string(),
            "description".to_string(),
            "contact".to_string(),
        )
        .unwrap();
    number_of_posts = contract.posting_count();
    current_posting_id = contract.current_posting_id();
    assert_eq!(1, number_of_posts, "Expected there to be a post.");
    assert_eq!(1, current_posting_id, "Posting ID should have iterated by 1.");
}

#[test]
fn get_postings() {
    let mut contract = JobBoard::new();
    contract
        .add_posting(
            robert(),
            "title".to_string(),
            "description".to_string(),
            "contact".to_string(),
        )
        .unwrap();
    contract
        .add_posting(
            robert(),
            "title".to_string(),
            "description".to_string(),
            "contact".to_string(),
        )
        .unwrap();
    assert!(
        contract.get_postings(0, 10).unwrap().len() == 2,
        "There should be 2 postings"
    )
}

#[test]
fn create_posting_reply() {
    let mut contract = JobBoard::new();
    contract
        .add_posting(
            robert(),
            "title".to_string(),
            "description".to_string(),
            "contact".to_string(),
        )
        .unwrap();
    contract
        .add_reply(
            "github".to_string(),
            "description".to_string(),
            "contact".to_string(),
            0,
        )
        .unwrap();
    assert!(contract.reply_count() > 0, "No replies were found");
    assert!(
        contract.get_postings_replies(0).len() > 0,
        "No replies were found for post with ID {}",
        0
    )
}

#[test]
fn delete_posting() {
    let mut contract = JobBoard::new();
    contract
        .add_posting(
            robert(),
            "title".to_string(),
            "description".to_string(),
            "contact".to_string(),
        )
        .unwrap();
    contract
        .add_reply(
            "github".to_string(),
            "description".to_string(),
            "contact".to_string(),
            0,
        )
        .unwrap();
    contract.remove_posting(&robert(), 0).unwrap();
    assert!(
        contract.posting_count() == 0,
        "There should be no postings after the only one was deleted."
    );
    assert!(
        contract.get_postings_replies(0).len() == 0,
        "replies should have been deleted."
    );
}

#[test]
fn delete_posting_as_other_account() {
    let mut contract = JobBoard::new();
    contract
        .add_posting(
            robert(),
            "title".to_string(),
            "description".to_string(),
            "contact".to_string(),
        )
        .unwrap();
    let r = contract.remove_posting(&mike(), 0);
    assert_eq!(r.unwrap_err(), BoardError::Unauthorized);
    assert_eq!(contract.posting_count(), 1);
}

#[test]
fn fresh_board_is_empty() {
    let board = JobBoard::new();
    assert_eq!(board.posting_count(), 0);
    assert_eq!(board.reply_count(), 0);
    assert_eq!(board.current_posting_id(), 0);
    assert_eq!(board.current_reply_id(), 0);
}

#[test]
fn init_refuses_existing_state() {
    assert_eq!(JobBoard::init(true).unwrap_err(), BoardError::AlreadyInitialized);
    let board = JobBoard::init(false).unwrap();
    assert_eq!(board.posting_count(), 0);
    assert_eq!(board.current_reply_id(), 0);
}

#[test]
fn posting_ids_follow_call_order() {
    let mut board = JobBoard::new();
    for k in 0..5u32 {
        let p = board
            .add_posting(robert(), format!("title {}", k), "d".to_string(), "c".to_string())
            .unwrap();
        assert_eq!(p.id, k);
        assert_eq!(p.title, format!("title {}", k));
    }
    let listed = board.get_postings(0, 5).unwrap();
    assert_eq!(listed.len(), 5);
    for (k, (id, p)) in listed.iter().enumerate() {
        assert_eq!(*id, k as u32);
        assert_eq!(p.id, k as u32);
        assert_eq!(p.title, format!("title {}", k));
    }
}

#[test]
fn created_posting_holds_its_fields() {
    let mut board = JobBoard::new();
    let p = board
        .add_posting(robert(), "T".to_string(), "D".to_string(), "C".to_string())
        .unwrap();
    assert_eq!(p.id, 0);
    assert_eq!(p.title, "T");
    assert_eq!(p.description, "D");
    assert_eq!(p.contact, "C");
    assert_eq!(board.owner_of(0), Some(robert()));
    assert_eq!(board.owner_of(1), None);
}

#[test]
fn created_reply_holds_its_fields() {
    let mut board = JobBoard::new();
    let r = board
        .add_reply("gh".to_string(), "D".to_string(), "C".to_string(), 7)
        .unwrap();
    assert_eq!(r.github, "gh");
    assert_eq!(r.description, "D");
    assert_eq!(r.contact, "C");
    assert_eq!(board.current_reply_id(), 1);
    let listed = board.get_postings_replies(7);
    assert_eq!(listed.len(), 1);
    assert_eq!(listed[0].github, "gh");
}

#[test]
fn pagination_takes_the_requested_slice() {
    let mut board = JobBoard::new();
    for _ in 0..4 {
        post(&mut board, robert());
    }
    let ids = |v: Vec<(u32, Posting)>| v.iter().map(|e| e.0).collect::<Vec<u32>>();
    assert_eq!(ids(board.get_postings(1, 2).unwrap()), vec![1, 2]);
    assert_eq!(ids(board.get_postings(2, 10).unwrap()), vec![2, 3]);
    assert_eq!(ids(board.get_postings(3, 1).unwrap()), vec![3]);
    assert_eq!(ids(board.get_postings(0, 0).unwrap()), Vec::<u32>::new());
    assert_eq!(ids(board.get_postings(1, u64::MAX).unwrap()), vec![1, 2, 3]);
}

#[test]
fn listing_past_the_end_is_empty() {
    let mut board = JobBoard::new();
    post(&mut board, robert());
    post(&mut board, robert());
    assert_eq!(board.get_postings(2, 10).unwrap().len(), 0);
    assert_eq!(board.get_postings(u64::MAX, u64::MAX).unwrap().len(), 0);
}

#[test]
fn listing_empty_board_fails() {
    let board = JobBoard::new();
    assert_eq!(board.get_postings(0, 10).unwrap_err(), BoardError::EmptyCollection);
    let mut board = JobBoard::new();
    post(&mut board, robert());
    board.remove_posting(&robert(), 0).unwrap();
    assert_eq!(board.get_postings(0, 10).unwrap_err(), BoardError::EmptyCollection);
}

#[test]
fn deleting_missing_posting_fails() {
    let mut board = JobBoard::new();
    post(&mut board, robert());
    assert_eq!(board.remove_posting(&robert(), 5).unwrap_err(), BoardError::NotFound);
    board.remove_posting(&robert(), 0).unwrap();
    assert_eq!(board.remove_posting(&robert(), 0).unwrap_err(), BoardError::NotFound);
}

#[test]
fn foreign_delete_keeps_listing() {
    let mut board = JobBoard::new();
    post(&mut board, robert());
    post(&mut board, mike());
    reply(&mut board, "a", 0);
    let before: Vec<u32> = board.get_postings(0, 10).unwrap().iter().map(|e| e.0).collect();
    assert_eq!(board.remove_posting(&mike(), 0).unwrap_err(), BoardError::Unauthorized);
    assert_eq!(board.remove_posting(&robert(), 1).unwrap_err(), BoardError::Unauthorized);
    let after: Vec<u32> = board.get_postings(0, 10).unwrap().iter().map(|e| e.0).collect();
    assert_eq!(before, after);
    assert_eq!(board.get_postings_replies(0).len(), 1);
    assert_eq!(board.reply_count(), 1);
}

#[test]
fn owner_delete_cascades_to_its_replies_only() {
    let mut board = JobBoard::new();
    post(&mut board, robert());
    post(&mut board, robert());
    reply(&mut board, "a", 0);
    reply(&mut board, "b", 1);
    reply(&mut board, "c", 0);
    let removed = board.remove_posting(&robert(), 0).unwrap();
    assert_eq!(removed.id, 0);
    assert_eq!(board.get_postings_replies(0).len(), 0);
    assert_eq!(board.posting_replies_filter(0), Vec::<u64>::new());
    let left = board.get_postings_replies(1);
    assert_eq!(left.len(), 1);
    assert_eq!(left[0].github, "b");
    assert_eq!(board.reply_count(), 1);
    assert_eq!(board.posting_replies_filter(1), vec![1]);
    assert_eq!(board.owner_of(0), None);
    // ids are not reused after a deletion
    assert_eq!(post(&mut board, robert()).id, 2);
    assert_eq!(reply(&mut board, "d", 2).github, "d");
    assert_eq!(board.posting_replies_filter(2), vec![3]);
}

#[test]
fn replies_are_listed_by_posting() {
    let mut board = JobBoard::new();
    post(&mut board, robert());
    post(&mut board, mike());
    reply(&mut board, "a", 0);
    reply(&mut board, "b", 1);
    reply(&mut board, "c", 0);
    reply(&mut board, "d", 1);
    reply(&mut board, "e", 0);
    let names = |v: Vec<Reply>| v.iter().map(|r| r.github.clone()).collect::<Vec<String>>();
    assert_eq!(names(board.get_postings_replies(0)), vec!["a", "c", "e"]);
    assert_eq!(names(board.get_postings_replies(1)), vec!["b", "d"]);
    assert_eq!(names(board.get_postings_replies(9)), Vec::<String>::new());
    assert_eq!(board.posting_replies_filter(0), vec![0, 2, 4]);
    assert_eq!(board.posting_replies_filter(1), vec![1, 3]);
}

#[test]
fn board_scenario() {
    let mut board = JobBoard::new();
    post(&mut board, robert());
    post(&mut board, robert());
    let listed = board.get_postings(0, 10).unwrap();
    assert_eq!(listed.len(), 2);
    assert_eq!(listed.iter().map(|e| e.0).collect::<Vec<u32>>(), vec![0, 1]);
    reply(&mut board, "r", 0);
    let replies = board.get_postings_replies(0);
    assert_eq!(replies.len(), 1);
    assert_eq!(replies[0].github, "r");
    board.remove_posting(&robert(), 0).unwrap();
    let listed = board.get_postings(0, 10).unwrap();
    assert_eq!(listed.len(), 1);
    assert_eq!(listed[0].0, 1);
    assert_eq!(board.get_postings_replies(0).len(), 0);
    assert_eq!(board.remove_posting(&mike(), 1).unwrap_err(), BoardError::Unauthorized);
    assert_eq!(board.get_postings(0, 10).unwrap()[0].0, 1);
}

#[test]
fn clones_keep_fields() {
    let p = Posting {
        id: 3,
        title: "t".to_string(),
        description: "d".to_string(),
        contact: "c".to_string(),
    };
    let q = p.clone();
    assert_eq!((q.id, q.title, q.description, q.contact), (3, "t".to_string(), "d".to_string(), "c".to_string()));
    let r = Reply {
        github: "g".to_string(),
        description: "d".to_string(),
        contact: "c".to_string(),
    };
    let s = r.clone();
    assert_eq!((s.github, s.description, s.contact), ("g".to_string(), "d".to_string(), "c".to_string()));
}

#[test]
fn parts_round_trip() {
    let mut board = JobBoard::new();
    post(&mut board, robert());
    post(&mut board, mike());
    reply(&mut board, "a", 1);
    board.remove_posting(&robert(), 0).unwrap();
    let (owners, postings, replies, links, pid, rid) = board.into_parts();
    assert_eq!(owners, vec![(1, mike())]);
    assert_eq!(postings.len(), 1);
    assert_eq!(links, vec![(0, 1)]);
    assert_eq!((pid, rid), (2, 1));
    let mut back = JobBoard::from_parts(owners, postings, replies, links, pid, rid).unwrap();
    assert_eq!(back.get_postings_replies(1)[0].github, "a");
    assert_eq!(back.remove_posting(&robert(), 1).unwrap_err(), BoardError::Unauthorized);
    assert_eq!(post(&mut back, robert()).id, 2);
}

#[test]
fn inconsistent_parts_are_refused() {
    let p = |id: u32| Posting {
        id,
        title: "t".to_string(),
        description: "d".to_string(),
        contact: "c".to_string(),
    };
    // id not below the counter
    assert!(JobBoard::from_parts(vec![(0, robert())], vec![p(0)], vec![], vec![], 0, 0).is_none());
    // ownership entry for another posting
    assert!(JobBoard::from_parts(vec![(1, robert())], vec![p(0)], vec![], vec![], 5, 0).is_none());
    // ids out of order
    assert!(JobBoard::from_parts(
        vec![(2, robert()), (1, robert())],
        vec![p(2), p(1)],
        vec![],
        vec![],
        5,
        0
    )
    .is_none());
    // reply store and index disagree
    let r = Reply {
        github: "g".to_string(),
        description: "d".to_string(),
        contact: "c".to_string(),
    };
    assert!(JobBoard::from_parts(vec![], vec![], vec![(0, r.clone())], vec![(1, 0)], 0, 5).is_none());
    assert!(JobBoard::from_parts(vec![], vec![], vec![(0, r)], vec![(0, 0)], 0, 5).is_some());
}
