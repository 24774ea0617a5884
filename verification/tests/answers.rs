use mp3_player::bili_api::{audio_infos_from_text, video_info_from_text};

#[test]
fn play_url_answer_lists_audio_streams() {
    let text = r#"{"code":0,"data":{"dash":{"audio":[
        {"base_url":"https://a/1.m4s","bandwidth":132000,"mime_type":"audio/mp4","codecs":"mp4a.40.2",
         "segment_base":{"initialization":"0-907","index_range":"908-1279"}},
        {"base_url":"https://a/2.m4s","mime_type":"audio/mp4",
         "segment_base":{"initialization":"bad"}}
    ]}}}"#;
    let infos = audio_infos_from_text(text).unwrap();
    assert_eq!(infos.len(), 2);
    assert_eq!(infos[0].base_url, "https://a/1.m4s");
    assert_eq!(infos[0].bandwidth, 132000);
    assert_eq!(infos[0].mime_type, "audio/mp4");
    assert_eq!(infos[0].codecs, "mp4a.40.2");
    assert_eq!(infos[0].initialization, (0, 907));
    assert_eq!(infos[0].index_range, (908, 1279));
    assert_eq!(infos[1].base_url, "https://a/2.m4s");
    assert_eq!(infos[1].bandwidth, 0);
    assert_eq!(infos[1].codecs, "");
    assert_eq!(infos[1].initialization, (0, 0));
    assert_eq!(infos[1].index_range, (0, 0));
}

#[test]
fn play_url_answer_without_dash_has_no_streams() {
    assert_eq!(audio_infos_from_text(r#"{"code":-404,"data":null}"#).unwrap().len(), 0);
    assert_eq!(audio_infos_from_text(r#"{"data":{"dash":{"video":[]}}}"#).unwrap().len(), 0);
}

#[test]
fn answer_that_is_not_json_is_refused() {
    assert!(audio_infos_from_text("<html>").is_none());
    assert!(video_info_from_text("{\"data\":").is_none());
}

#[test]
fn video_answer_gives_title_and_present_page_ids() {
    let text = r#"{"data":{"title":"A song","pages":[{"cid":11},{"page":2},{"cid":33}]}}"#;
    let (title, ids) = video_info_from_text(text).unwrap();
    assert_eq!(title, "A song");
    assert_eq!(ids, vec![11, 33]);
}

#[test]
fn video_answer_without_fields_is_empty() {
    let (title, ids) = video_info_from_text(r#"{"data":{}}"#).unwrap();
    assert_eq!(title, "");
    assert!(ids.is_empty());
}
