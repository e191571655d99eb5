use gh_governor::settings::map_merge_message_option;
use gh_governor::settings::map_squash_option;
use gh_governor::settings::MergeCommitMessage;
use gh_governor::settings::MergeCommitMessageOption;
use gh_governor::settings::MergeCommitTitle;
use gh_governor::settings::SquashMergeCommitMessage;
use gh_governor::settings::SquashMergeCommitTitle;
use gh_governor::settings::SquashMergeOption;

#[test]
fn squash_options_expand_to_title_and_message() {
    assert_eq!(
        map_squash_option(&SquashMergeOption::DefaultMessage),
        (
            Some(SquashMergeCommitTitle::CommitOrPrTitle),
            Some(SquashMergeCommitMessage::CommitMessages)
        )
    );
    assert_eq!(
        map_squash_option(&SquashMergeOption::PullRequestTitle),
        (
            Some(SquashMergeCommitTitle::PrTitle),
            Some(SquashMergeCommitMessage::Blank)
        )
    );
    assert_eq!(
        map_squash_option(&SquashMergeOption::PullRequestTitleAndCommitDetails),
        (
            Some(SquashMergeCommitTitle::PrTitle),
            Some(SquashMergeCommitMessage::CommitMessages)
        )
    );
    assert_eq!(
        map_squash_option(&SquashMergeOption::PullRequestTitleAndDescription),
        (
            Some(SquashMergeCommitTitle::PrTitle),
            Some(SquashMergeCommitMessage::PrBody)
        )
    );
}

#[test]
fn merge_message_options_expand_to_title_and_message() {
    assert_eq!(
        map_merge_message_option(&MergeCommitMessageOption::DefaultMessage),
        (
            Some(MergeCommitTitle::MergeMessage),
            Some(MergeCommitMessage::PrTitle)
        )
    );
    assert_eq!(
        map_merge_message_option(&MergeCommitMessageOption::PullRequestTitle),
        (
            Some(MergeCommitTitle::PrTitle),
            Some(MergeCommitMessage::PrTitle)
        )
    );
    assert_eq!(
        map_merge_message_option(&MergeCommitMessageOption::PullRequestTitleAndDescription),
        (
            Some(MergeCommitTitle::PrTitle),
            Some(MergeCommitMessage::PrBody)
        )
    );
}
