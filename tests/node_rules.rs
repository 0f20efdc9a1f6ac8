use ghost_api::node_types::NodeType;

const ALL: [NodeType; 5] = [
    NodeType::Initiative,
    NodeType::Project,
    NodeType::SubProject,
    NodeType::Job,
    NodeType::AdjustmentBuffer,
];

fn legal(parent: NodeType, child: NodeType) -> bool {
    matches!(
        (parent, child),
        (NodeType::Initiative, NodeType::Project)
            | (NodeType::Project, NodeType::SubProject)
            | (NodeType::Project, NodeType::Job)
            | (NodeType::Project, NodeType::AdjustmentBuffer)
            | (NodeType::SubProject, NodeType::SubProject)
            | (NodeType::SubProject, NodeType::Job)
            | (NodeType::SubProject, NodeType::AdjustmentBuffer)
    )
}

#[test]
fn child_rules_match_the_table_for_all_pairs() {
    let mut legal_count = 0;
    for parent in ALL {
        for child in ALL {
            assert_eq!(child.can_be_child_of(&parent), legal(parent, child), "{:?} under {:?}", child, parent);
            if legal(parent, child) {
                legal_count += 1;
            }
        }
    }
    assert_eq!(legal_count, 7);
}

#[test]
fn only_initiative_is_root() {
    for t in ALL {
        assert_eq!(t.can_be_root(), t == NodeType::Initiative);
    }
}

#[test]
fn entity_types_are_job_and_buffer() {
    for t in ALL {
        assert_eq!(t.is_entity(), t == NodeType::Job || t == NodeType::AdjustmentBuffer);
    }
}
