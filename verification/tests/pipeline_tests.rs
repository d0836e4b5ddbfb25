use content_crafters::ids::RecordId;
use content_crafters::pipeline::{
    create_pipeline, delete_pipeline, get_pipeline, update_pipeline, validate_steps,
    CreatePipeline, PipelineError, PipelineRepo, StepError, UpdatePipeline,
};
use content_crafters::reconcile::reconcile_at;
use content_crafters::repo::ContentRepo;
use content_crafters::store::ObjectStore;

fn content_with(ids: &[RecordId]) -> ContentRepo {
    let mut repo = ContentRepo::new();
    let mut store = ObjectStore::new(b"bucket".to_vec());
    let mut t: i64 = 1;
    for id in ids {
        let mut name = id.to_hex_bytes();
        name.extend_from_slice(b".py");
        reconcile_at(&mut repo, &mut store, 1, &name, b"text/plain", &[1u8; 3], t, *id).unwrap();
        t += 1;
    }
    repo
}

#[test]
fn validate_steps_reports_first_missing_step() {
    let a = RecordId { hi: 10, lo: 1 };
    let b = RecordId { hi: 10, lo: 2 };
    let missing = RecordId { hi: 10, lo: 3 };
    let content = content_with(&[a, b]);
    let steps = vec![a.to_hex_bytes(), b.to_hex_bytes(), missing.to_hex_bytes()];
    match validate_steps(&content, &steps) {
        Err(StepError::Missing { index, step }) => {
            assert_eq!(index, 2);
            assert_eq!(step, missing.to_hex_bytes());
        },
        other => panic!("expected a missing step, got {:?}", other),
    }
}

#[test]
fn validate_steps_reports_first_malformed_step() {
    let a = RecordId { hi: 10, lo: 1 };
    let content = content_with(&[a]);
    let steps = vec![a.to_hex_bytes(), b"not-hex".to_vec()];
    match validate_steps(&content, &steps) {
        Err(StepError::Malformed { index, step }) => {
            assert_eq!(index, 1);
            assert_eq!(step, b"not-hex".to_vec());
        },
        other => panic!("expected a malformed step, got {:?}", other),
    }
}

#[test]
fn validate_steps_accepts_resolving_steps() {
    let a = RecordId { hi: 10, lo: 1 };
    let b = RecordId { hi: 10, lo: 2 };
    let content = content_with(&[a, b]);
    let steps = vec![a.to_hex_bytes(), b.to_hex_bytes()];
    assert!(validate_steps(&content, &steps).is_ok());
    assert!(validate_steps(&content, &Vec::new()).is_ok());
}

#[test]
fn pipeline_with_missing_step_is_not_persisted() {
    let a = RecordId { hi: 10, lo: 1 };
    let missing = RecordId { hi: 10, lo: 9 };
    let content = content_with(&[a]);
    let mut pipelines = PipelineRepo::new();
    let create = CreatePipeline {
        owner_id: 1,
        name: "deploy".to_string(),
        description: "build and ship".to_string(),
        steps: vec![a.to_hex_bytes(), missing.to_hex_bytes()],
    };
    let r = create_pipeline(
        &mut pipelines,
        &content,
        create,
        RecordId { hi: 20, lo: 1 },
        "2024-08-01".to_string(),
    );
    assert!(r.is_err());
    assert_eq!(pipelines.record_count(), 0);
}

#[test]
fn pipeline_with_resolving_steps_is_created() {
    let a = RecordId { hi: 10, lo: 1 };
    let b = RecordId { hi: 10, lo: 2 };
    let content = content_with(&[a, b]);
    let mut pipelines = PipelineRepo::new();
    let id = RecordId { hi: 20, lo: 1 };
    let create = CreatePipeline {
        owner_id: 7,
        name: "deploy".to_string(),
        description: "build and ship".to_string(),
        steps: vec![a.to_hex_bytes(), b.to_hex_bytes()],
    };
    let p = create_pipeline(&mut pipelines, &content, create, id, "2024-08-01".to_string())
        .unwrap();
    assert_eq!(p.id, id);
    assert_eq!(p.owner_id, 7);
    assert_eq!(p.name, "deploy");
    assert_eq!(p.steps.len(), 2);
    assert_eq!(pipelines.record_count(), 1);
    let fetched = get_pipeline(&pipelines, &id.to_hex_bytes()).unwrap();
    assert_eq!(fetched.name, "deploy");
}

#[test]
fn update_pipeline_rewrites_only_non_empty_fields() {
    let a = RecordId { hi: 10, lo: 1 };
    let content = content_with(&[a]);
    let mut pipelines = PipelineRepo::new();
    let id = RecordId { hi: 20, lo: 1 };
    let create = CreatePipeline {
        owner_id: 7,
        name: "deploy".to_string(),
        description: "build and ship".to_string(),
        steps: vec![a.to_hex_bytes()],
    };
    create_pipeline(&mut pipelines, &content, create, id, "2024-08-01".to_string()).unwrap();

    let update = UpdatePipeline {
        name: "release".to_string(),
        description: String::new(),
        steps: Vec::new(),
    };
    let p = update_pipeline(&mut pipelines, &content, &id.to_hex_bytes(), &update).unwrap();
    assert_eq!(p.name, "release");
    assert_eq!(p.description, "build and ship");
    assert_eq!(p.steps, vec![a.to_hex_bytes()]);
}

#[test]
fn update_pipeline_validates_steps_first() {
    let a = RecordId { hi: 10, lo: 1 };
    let content = content_with(&[a]);
    let mut pipelines = PipelineRepo::new();
    let id = RecordId { hi: 20, lo: 1 };
    let create = CreatePipeline {
        owner_id: 7,
        name: "deploy".to_string(),
        description: "d".to_string(),
        steps: vec![a.to_hex_bytes()],
    };
    create_pipeline(&mut pipelines, &content, create, id, "2024".to_string()).unwrap();

    let missing = RecordId { hi: 10, lo: 9 };
    let update = UpdatePipeline {
        name: String::new(),
        description: String::new(),
        steps: vec![missing.to_hex_bytes()],
    };
    match update_pipeline(&mut pipelines, &content, &id.to_hex_bytes(), &update) {
        Err(PipelineError::Step(StepError::Missing { index, .. })) => assert_eq!(index, 0),
        other => panic!("expected a missing step, got {:?}", other),
    }
    // the stored pipeline is unchanged
    let p = get_pipeline(&pipelines, &id.to_hex_bytes()).unwrap();
    assert_eq!(p.steps, vec![a.to_hex_bytes()]);
}

#[test]
fn update_pipeline_reports_malformed_and_missing_ids() {
    let content = ContentRepo::new();
    let mut pipelines = PipelineRepo::new();
    let update = UpdatePipeline {
        name: String::new(),
        description: String::new(),
        steps: Vec::new(),
    };
    assert!(matches!(
        update_pipeline(&mut pipelines, &content, b"bogus", &update),
        Err(PipelineError::InvalidId)
    ));
    assert!(matches!(
        update_pipeline(&mut pipelines, &content, b"0123456789abcdef01234567", &update),
        Err(PipelineError::NotFound)
    ));
}

#[test]
fn delete_pipeline_removes_only_the_addressed_record() {
    let content = ContentRepo::new();
    let mut pipelines = PipelineRepo::new();
    let id = RecordId { hi: 20, lo: 1 };
    let create = CreatePipeline {
        owner_id: 7,
        name: "deploy".to_string(),
        description: "d".to_string(),
        steps: Vec::new(),
    };
    create_pipeline(&mut pipelines, &content, create, id, "2024".to_string()).unwrap();
    assert_eq!(delete_pipeline(&mut pipelines, b"zz"), Err(PipelineError::InvalidId));
    assert_eq!(
        delete_pipeline(&mut pipelines, &RecordId { hi: 1, lo: 1 }.to_hex_bytes()),
        Err(PipelineError::NotFound)
    );
    assert_eq!(delete_pipeline(&mut pipelines, &id.to_hex_bytes()), Ok(()));
    assert_eq!(pipelines.record_count(), 0);
}

#[test]
fn pipelines_of_owner_filters_and_lists() {
    let content = ContentRepo::new();
    let mut pipelines = PipelineRepo::new();
    for (n, owner) in [(1u64, 5i32), (2, 6), (3, 5)] {
        let create = CreatePipeline {
            owner_id: owner,
            name: format!("p{}", n),
            description: "d".to_string(),
            steps: Vec::new(),
        };
        create_pipeline(
            &mut pipelines,
            &content,
            create,
            RecordId { hi: 30, lo: n },
            "2024".to_string(),
        )
        .unwrap();
    }
    let all = pipelines.list_all();
    assert_eq!(all.len(), 3);
    let mine = pipelines.pipelines_of_owner(5);
    assert_eq!(mine.len(), 2);
    assert_eq!(mine[0].name, "p1");
    assert_eq!(mine[1].name, "p3");
}
