use novel_fetch::assets::ImageData;
use novel_fetch::assets::ImageMap;
use novel_fetch::orchestrator::Action;
use novel_fetch::orchestrator::CatalogPage;
use novel_fetch::orchestrator::Orchestrator;
use novel_fetch::orchestrator::Outcome;
use novel_fetch::orchestrator::Phase;
use novel_fetch::progress::ProgressMonitor;
use novel_fetch::reconcile::Reconciler;
use novel_fetch::reconcile::Verdict;
use novel_fetch::volume::Chapter;
use novel_fetch::volume::Novel;

fn volume(n: usize) -> Novel {
    let mut novel = Novel::new("https://example.org/v".to_string(), "v".to_string());
    for i in 0..n {
        novel.chapters.push(Chapter::new(&format!("https://example.org/c{}", i), &format!("c{}", i)));
        novel.pending_chapter_indices.push(i);
    }
    novel
}

fn text(i: usize) -> Vec<String> {
    vec![format!("page of chapter {}", i)]
}

/// Runs a batch in which the fetches of `failing` fail and all others
/// succeed. Fetches end in the order in which they were started. Returns the
/// outcome, the largest number of fetches that ran at one time, and how
/// often a checkpoint was asked for.
fn drive(o: &mut Orchestrator, failing: &[usize]) -> (Outcome, usize, usize) {
    let mut running: Vec<usize> = Vec::new();
    let mut most = 0;
    let mut checkpoints = 0;
    loop {
        match o.next_action(false) {
            Action::FetchCatalog => panic!("the volume has chapters"),
            Action::Fetch { index, .. } => {
                running.push(index);
                most = most.max(running.len());
                assert_eq!(o.in_flight_count(), running.len());
            }
            Action::Checkpoint => checkpoints += 1,
            Action::Wait => {
                let index = running.remove(0);
                if failing.contains(&index) {
                    assert!(o.chapter_failed(index));
                } else {
                    assert!(o.chapter_fetched(index, text(index), Vec::new()));
                }
            }
            Action::Finish(outcome) => return (outcome, most, checkpoints),
        }
    }
}

#[test]
fn nothing_pending_is_a_no_op() {
    let mut novel = volume(3);
    novel.pending_chapter_indices.clear();
    let mut o = Orchestrator::new(novel, 2, 1).unwrap();
    assert_eq!(o.next_action(false), Action::Finish(Outcome::NothingToDo));
    assert_eq!(o.next_action(true), Action::Finish(Outcome::NothingToDo));
    assert_eq!(o.progress().completed_count(), 0);
    assert_eq!(o.progress().error_count(), 0);
    assert!(!o.progress().finished);
    assert_eq!(o.in_flight_count(), 0);
    assert_eq!(o.novel().chapters.len(), 3);
    assert!(o.novel().pending_chapter_indices.is_empty());
}

#[test]
fn refuses_a_bound_or_an_interval_of_zero() {
    assert!(Orchestrator::new(volume(2), 0, 1).is_none());
    assert!(Orchestrator::new(volume(2), 1, 0).is_none());
    assert!(Orchestrator::new(volume(2), 1, 1).is_some());
}

#[test]
fn refuses_pending_indices_that_name_no_chapter() {
    let mut novel = volume(2);
    novel.pending_chapter_indices.push(2);
    assert!(!novel.is_well_formed());
    assert!(Orchestrator::new(novel, 1, 1).is_none());
    let mut twice = volume(2);
    twice.pending_chapter_indices.push(1);
    assert!(!twice.is_well_formed());
    assert!(Orchestrator::new(twice, 1, 1).is_none());
}

#[test]
fn a_full_run_fetches_every_chapter() {
    let mut o = Orchestrator::new(volume(5), 2, 2).unwrap();
    let (outcome, most, checkpoints) = drive(&mut o, &[]);
    assert_eq!(outcome, Outcome::Completed);
    assert_eq!(most, 2);
    // After the second and the fourth success, and at the end.
    assert_eq!(checkpoints, 3);
    assert_eq!(o.completed_count(), 5);
    assert_eq!(o.progress().completed_count(), 5);
    assert_eq!(o.progress().error_count(), 0);
    assert!(o.progress().finished);
    assert_eq!(o.phase(), Phase::Finished(Outcome::Completed));
    assert_eq!(o.outcome(), Some(Outcome::Completed));
    let novel = o.into_novel();
    assert!(novel.pending_chapter_indices.is_empty());
    for (i, c) in novel.chapters.iter().enumerate() {
        assert_eq!(c.context, text(i));
        assert_eq!(c.title, format!("c{}", i));
        assert_eq!(c.url, format!("https://example.org/c{}", i));
    }
}

#[test]
fn never_more_fetches_than_the_bound() {
    for bound in 1..=6 {
        let mut o = Orchestrator::new(volume(7), bound, 3).unwrap();
        let (outcome, most, _) = drive(&mut o, &[2]);
        assert_eq!(outcome, Outcome::Completed);
        assert!(most <= bound);
        assert_eq!(most, bound.min(7));
    }
}

#[test]
fn the_bound_is_the_number_of_chapters_if_that_is_smaller() {
    let mut o = Orchestrator::new(volume(2), 5, 1).unwrap();
    assert_eq!(o.next_action(false), Action::Fetch { index: 0, slot: 0, stagger: 0 });
    assert_eq!(o.next_action(false), Action::Fetch { index: 1, slot: 1, stagger: 1 });
    assert_eq!(o.next_action(false), Action::Wait);
}

#[test]
fn slots_are_handed_out_first_in_first_out_and_the_stagger_is_the_index_modulo_the_bound() {
    let mut o = Orchestrator::new(volume(5), 2, 10).unwrap();
    assert_eq!(o.next_action(false), Action::Fetch { index: 0, slot: 0, stagger: 0 });
    assert_eq!(o.next_action(false), Action::Fetch { index: 1, slot: 1, stagger: 1 });
    assert_eq!(o.next_action(false), Action::Wait);
    assert!(o.chapter_fetched(1, text(1), Vec::new()));
    assert_eq!(o.next_action(false), Action::Fetch { index: 2, slot: 1, stagger: 0 });
    assert!(o.chapter_fetched(0, text(0), Vec::new()));
    assert!(o.chapter_fetched(2, text(2), Vec::new()));
    assert_eq!(o.next_action(false), Action::Fetch { index: 3, slot: 0, stagger: 1 });
    assert_eq!(o.next_action(false), Action::Fetch { index: 4, slot: 1, stagger: 0 });
}

#[test]
fn a_failure_leaves_the_chapter_pending_and_the_batch_goes_on() {
    let mut o = Orchestrator::new(volume(5), 2, 10).unwrap();
    let (outcome, _, checkpoints) = drive(&mut o, &[1, 3]);
    assert_eq!(outcome, Outcome::Completed);
    assert_eq!(checkpoints, 1);
    assert_eq!(o.failed(), &vec![1, 3]);
    assert_eq!(o.succeeded(), &vec![0, 2, 4]);
    assert_eq!(o.progress().completed_count(), 3);
    assert_eq!(o.progress().error_count(), 2);
    assert_eq!(o.progress().position(), 5);
    let novel = o.into_novel();
    assert_eq!(novel.pending_chapter_indices, vec![1, 3]);
    assert!(novel.chapters[1].context.is_empty());
    assert_eq!(novel.chapters[2].context, text(2));
}

#[test]
fn reports_for_chapters_that_are_not_running_change_nothing() {
    let mut o = Orchestrator::new(volume(3), 1, 1).unwrap();
    assert!(!o.chapter_fetched(0, text(0), Vec::new()));
    assert!(!o.chapter_failed(0));
    assert!(!o.catalog_failed());
    assert_eq!(o.next_action(false), Action::Fetch { index: 0, slot: 0, stagger: 0 });
    assert!(!o.chapter_fetched(1, text(1), Vec::new()));
    assert!(!o.chapter_fetched(7, text(7), Vec::new()));
    assert!(o.chapter_fetched(0, text(0), Vec::new()));
    assert!(!o.chapter_fetched(0, text(0), Vec::new()));
    assert_eq!(o.novel().pending_chapter_indices, vec![1, 2]);
}

#[test]
fn a_fresh_volume_asks_for_its_catalog_first() {
    let novel = Novel::new("https://example.org/v".to_string(), "fresh".to_string());
    let mut o = Orchestrator::new(novel, 2, 1).unwrap();
    assert_eq!(o.next_action(false), Action::FetchCatalog);
    assert_eq!(o.next_action(false), Action::Wait);
    let page = CatalogPage {
        author: "a".to_string(),
        description: "d".to_string(),
        tags: None,
        cover: "https://example.org/cover.png".to_string(),
        chapters: vec![Chapter::new("u0", "t0"), Chapter::new("u1", "t1"), Chapter::new("u2", "t2")],
    };
    assert!(o.catalog_fetched(page));
    assert_eq!(o.novel().pending_chapter_indices, vec![0, 1, 2]);
    assert_eq!(o.novel().author, "a");
    assert_eq!(o.novel().cover, "https://example.org/cover.png");
    assert_eq!(o.progress().prefix(), "fresh");
    let (outcome, most, _) = drive(&mut o, &[]);
    assert_eq!(o.progress().total, 3);
    assert_eq!(o.progress().completed_count(), 3);
    assert_eq!(outcome, Outcome::Completed);
    assert_eq!(most, 2);
    assert!(o.novel().pending_chapter_indices.is_empty());
}

#[test]
fn a_catalog_that_fails_ends_the_run_and_leaves_the_volume() {
    let novel = Novel::new("https://example.org/v".to_string(), "fresh".to_string());
    let mut o = Orchestrator::new(novel, 2, 1).unwrap();
    assert_eq!(o.next_action(false), Action::FetchCatalog);
    assert!(o.catalog_failed());
    assert_eq!(o.next_action(false), Action::Finish(Outcome::CatalogFailed));
    assert!(o.novel().chapters.is_empty());
    assert!(o.novel().pending_chapter_indices.is_empty());

    let novel = Novel::new("https://example.org/v".to_string(), "fresh".to_string());
    let mut o = Orchestrator::new(novel, 2, 1).unwrap();
    assert_eq!(o.next_action(false), Action::FetchCatalog);
    let empty = CatalogPage {
        author: "a".to_string(),
        description: String::new(),
        tags: None,
        cover: String::new(),
        chapters: Vec::new(),
    };
    assert!(o.catalog_fetched(empty));
    assert_eq!(o.next_action(false), Action::Finish(Outcome::CatalogFailed));
    assert_eq!(o.novel().author, "");
}

#[test]
fn a_checkpoint_is_due_after_every_interval_and_at_the_end() {
    let mut o = Orchestrator::new(volume(3), 1, 2).unwrap();
    assert_eq!(o.next_action(false), Action::Fetch { index: 0, slot: 0, stagger: 0 });
    assert!(o.chapter_fetched(0, text(0), Vec::new()));
    assert_eq!(o.next_action(false), Action::Fetch { index: 1, slot: 0, stagger: 0 });
    assert!(o.chapter_fetched(1, text(1), Vec::new()));
    assert_eq!(o.next_action(false), Action::Checkpoint);
    assert_eq!(o.checkpoint().pending_chapter_indices, vec![2]);
    assert_eq!(o.next_action(false), Action::Fetch { index: 2, slot: 0, stagger: 0 });
    assert!(o.chapter_failed(2));
    assert_eq!(o.next_action(false), Action::Checkpoint);
    assert_eq!(o.next_action(false), Action::Finish(Outcome::Completed));
    assert_eq!(o.next_action(false), Action::Finish(Outcome::Completed));
}

#[test]
fn resuming_from_a_checkpoint_keeps_what_was_complete() {
    let mut o = Orchestrator::new(volume(4), 2, 1).unwrap();
    assert_eq!(o.next_action(false), Action::Fetch { index: 0, slot: 0, stagger: 0 });
    assert_eq!(o.next_action(false), Action::Fetch { index: 1, slot: 1, stagger: 1 });
    assert!(o.chapter_fetched(1, text(1), vec!["img".to_string()]));
    assert_eq!(o.next_action(false), Action::Checkpoint);
    let saved = o.checkpoint();
    assert_eq!(saved.pending_chapter_indices, vec![0, 2, 3]);
    // The process ends here. A new run starts from what was written.
    let mut resumed = Orchestrator::new(saved, 2, 1).unwrap();
    assert_eq!(resumed.novel().chapters[1].context, text(1));
    assert_eq!(resumed.novel().chapters[1].image, vec!["img".to_string()]);
    let (outcome, _, _) = drive(&mut resumed, &[3]);
    assert_eq!(outcome, Outcome::Completed);
    assert_eq!(resumed.succeeded(), &vec![0, 2]);
    let novel = resumed.into_novel();
    assert_eq!(novel.pending_chapter_indices, vec![3]);
    assert_eq!(novel.chapters[1].context, text(1));
    assert_eq!(novel.chapters[1].image, vec!["img".to_string()]);
}

#[test]
fn cancellation_after_two_of_five_chapters() {
    let mut o = Orchestrator::new(volume(5), 2, 10).unwrap();
    assert_eq!(o.next_action(false), Action::Fetch { index: 0, slot: 0, stagger: 0 });
    assert_eq!(o.next_action(false), Action::Fetch { index: 1, slot: 1, stagger: 1 });
    assert!(o.chapter_fetched(0, text(0), Vec::new()));
    // Chapter 1 is still running when the flag is set.
    assert_eq!(o.next_action(true), Action::Wait);
    assert!(o.is_cancelled());
    assert!(o.chapter_fetched(1, text(1), Vec::new()));
    assert_eq!(o.next_action(true), Action::Checkpoint);
    let saved = o.checkpoint();
    assert_eq!(o.next_action(true), Action::Finish(Outcome::Cancelled));
    assert_eq!(o.outcome(), Some(Outcome::Cancelled));
    assert_eq!(saved.pending_chapter_indices, vec![1, 2, 3, 4]);
    assert_eq!(saved.chapters[0].context, text(0));
    assert!(saved.chapters[1].context.is_empty());
    assert_eq!(o.succeeded(), &vec![0]);
    assert_eq!(o.novel().pending_chapter_indices, vec![1, 2, 3, 4]);
}

#[test]
fn cancellation_when_both_admitted_chapters_have_finished() {
    let mut o = Orchestrator::new(volume(5), 2, 10).unwrap();
    assert_eq!(o.next_action(false), Action::Fetch { index: 0, slot: 0, stagger: 0 });
    assert_eq!(o.next_action(false), Action::Fetch { index: 1, slot: 1, stagger: 1 });
    assert!(o.chapter_fetched(0, text(0), Vec::new()));
    assert!(o.chapter_fetched(1, text(1), Vec::new()));
    assert_eq!(o.next_action(true), Action::Checkpoint);
    let saved = o.checkpoint();
    assert_eq!(o.next_action(false), Action::Finish(Outcome::Cancelled));
    assert_eq!(saved.pending_chapter_indices, vec![2, 3, 4]);
    assert_eq!(saved.chapters[0].context, text(0));
    assert_eq!(saved.chapters[1].context, text(1));
    assert!(saved.chapters[2].context.is_empty());
}

#[test]
fn the_flag_is_not_looked_at_when_nothing_is_left_to_admit() {
    let mut o = Orchestrator::new(volume(2), 2, 10).unwrap();
    assert_eq!(o.next_action(false), Action::Fetch { index: 0, slot: 0, stagger: 0 });
    assert_eq!(o.next_action(false), Action::Fetch { index: 1, slot: 1, stagger: 1 });
    assert_eq!(o.next_action(true), Action::Wait);
    assert!(!o.is_cancelled());
    assert!(o.chapter_fetched(0, text(0), Vec::new()));
    assert!(o.chapter_fetched(1, text(1), Vec::new()));
    assert_eq!(o.next_action(true), Action::Checkpoint);
    assert_eq!(o.next_action(true), Action::Finish(Outcome::Completed));
}

#[test]
fn a_checkpoint_that_is_due_at_the_end_is_the_last_one() {
    let mut o = Orchestrator::new(volume(2), 1, 2).unwrap();
    assert_eq!(o.next_action(false), Action::Fetch { index: 0, slot: 0, stagger: 0 });
    assert!(o.chapter_fetched(0, text(0), Vec::new()));
    assert_eq!(o.next_action(false), Action::Fetch { index: 1, slot: 0, stagger: 0 });
    assert!(o.chapter_fetched(1, text(1), Vec::new()));
    assert_eq!(o.next_action(false), Action::Checkpoint);
    assert_eq!(o.next_action(false), Action::Finish(Outcome::Completed));
}

#[test]
fn a_checkpoint_that_is_due_is_asked_for_while_fetches_run() {
    let mut o = Orchestrator::new(volume(3), 2, 1).unwrap();
    assert_eq!(o.next_action(false), Action::Fetch { index: 0, slot: 0, stagger: 0 });
    assert_eq!(o.next_action(false), Action::Fetch { index: 1, slot: 1, stagger: 1 });
    assert!(o.chapter_fetched(0, text(0), Vec::new()));
    assert_eq!(o.next_action(false), Action::Checkpoint);
    assert_eq!(o.next_action(false), Action::Fetch { index: 2, slot: 0, stagger: 0 });
    assert_eq!(o.next_action(false), Action::Wait);
}

#[test]
fn two_chapters_fail_once_and_reconciliation_repairs_them() {
    let store = ImageMap::new();
    let mut reconciler = Reconciler::new(1);
    let mut o = Orchestrator::new(volume(5), 2, 10).unwrap();
    let (outcome, most, _) = drive(&mut o, &[1, 3]);
    assert_eq!(outcome, Outcome::Completed);
    assert!(most <= 2);
    let mut fetched = o.completed_count();
    let (mut novel, monitor) = o.into_parts();
    assert_eq!(novel.pending_chapter_indices, vec![1, 3]);
    assert_eq!(novel.completed_count(), 3);
    assert_eq!(monitor.completed_count(), 3);
    assert_eq!(monitor.error_count(), 2);

    let report = novel.check(&store);
    assert!(report.cover_missing);
    assert_eq!(report.chapters, vec![1, 3]);
    assert_eq!(reconciler.judge(&report, false), Verdict::Refetch);
    assert_eq!(novel.pending_chapter_indices, vec![1, 3]);
    let mut again = Orchestrator::continued(novel, 2, 10, monitor).unwrap();
    let (outcome, _, _) = drive(&mut again, &[]);
    assert_eq!(outcome, Outcome::Completed);
    fetched += again.completed_count();
    let (novel, monitor) = again.into_parts();
    assert!(novel.pending_chapter_indices.is_empty());
    assert_eq!(fetched, 5);
    // The monitor that was carried through the two runs has counted five
    // chapters as completed; the two fetches that failed are errors only.
    assert_eq!(monitor.completed_count(), 5);
    assert_eq!(monitor.error_count(), 2);
    assert_eq!(monitor.total, 7);
    assert_eq!(novel.completed_count(), 5);
    for (i, c) in novel.chapters.iter().enumerate() {
        assert_eq!(c.context, text(i));
    }
}

#[test]
fn three_rounds_and_no_fourth() {
    let mut store = ImageMap::new();
    store.insert(
        String::new(),
        ImageData {
            u8_data: Vec::new(),
            base64_data: String::new(),
            filename: "cover".to_string(),
            mime_type: "image/png".to_string(),
            file_path: None,
        },
    );
    let mut novel = volume(3);
    let mut reconciler = Reconciler::new(3);
    let mut invocations = 0;
    let last = loop {
        let report = novel.check(&store);
        assert!(!report.cover_missing);
        assert!(!report.is_clean());
        match reconciler.judge(&report, false) {
            Verdict::Refetch => {
                let mut o = Orchestrator::new(novel, 2, 1).unwrap();
                // Every fetch fails: the defects stay.
                let (outcome, _, _) = drive(&mut o, &[0, 1, 2]);
                assert_eq!(outcome, Outcome::Completed);
                invocations += 1;
                novel = o.into_novel();
            }
            verdict => break (verdict, report),
        }
    };
    assert_eq!(invocations, 3);
    assert_eq!(last.0, Verdict::Exhausted);
    assert_eq!(last.1.chapters, vec![0, 1, 2]);
    assert_eq!(reconciler.used, 3);
    let report = novel.check(&store);
    assert_eq!(reconciler.judge(&report, false), Verdict::Exhausted);
    assert_eq!(reconciler.used, 3);
}

#[test]
fn a_run_with_nothing_pending_leaves_a_carried_monitor_as_it_is() {
    let mut monitor = ProgressMonitor::new(3, "v");
    monitor.increment();
    monitor.record_error();
    monitor.finish();
    let mut novel = volume(3);
    novel.pending_chapter_indices.clear();
    let mut o = Orchestrator::continued(novel, 2, 1, monitor).unwrap();
    assert_eq!(o.next_action(false), Action::Finish(Outcome::NothingToDo));
    let (_, monitor) = o.into_parts();
    assert_eq!(monitor.completed_count(), 1);
    assert_eq!(monitor.error_count(), 1);
    assert_eq!(monitor.total, 3);
    assert!(monitor.finished);
    assert!(Orchestrator::continued(volume(1), 0, 1, ProgressMonitor::new(0, "")).is_none());
}

#[test]
fn the_addresses_and_titles_of_chapters_stay() {
    let mut o = Orchestrator::new(volume(2), 2, 1).unwrap();
    let _ = drive(&mut o, &[1]);
    let novel = o.into_novel();
    assert_eq!(novel.chapters[0].url, "https://example.org/c0");
    assert_eq!(novel.chapters[0].title, "c0");
    assert_eq!(novel.chapters[1].url, "https://example.org/c1");
    assert_eq!(novel.chapters[1].title, "c1");
}
