// Exercises of std and tokio behaviour that the connector relies on.

#[test]
fn lib_test_vec() {
    let sample = vec!["a", "b", "c"];
    let index = 2;
    println!("output: {:?}", &sample[0..index]);
}

#[test]
fn lib_test_vec_chunks() {
    let sample: Vec<&str> = vec!["a", "b", "c", "d", "e"];
    let collects: Vec<&[&str]> = sample.chunks(2).collect();
    for item in collects {
        println!("output: {:?}", item);
    }
}

#[test]
fn lib_test_option() {
    let mut v: Option<String> = None;
    println!("output: {:?}", &v);

    v.replace(String::from("Hello"));
    println!("output: {:?}", &v);
}

#[test]
fn lib_test_smart_pointer_box() {
    let array = vec!["a", "b", "c"];
    let mut value = Box::new(array);

    println!("box before update: {:?}", &value);

    value.push("d");
    value.push("e");

    println!("box after update: {:?}", &value);
}

#[test]
fn lib_test_tokio_select() {}

#[test]
fn lib_tokio_broadcast_test() {
    let runtime = tokio::runtime::Runtime::new().unwrap();
    runtime.block_on(async {
        let (tx, _) = tokio::sync::broadcast::channel::<String>(16);
        let mut rx_1 = tx.subscribe();
        let mut rx_2 = tx.subscribe();

        let handle_1 = tokio::spawn(async move {
            assert_eq!(rx_1.recv().await.is_err(), true);
            println!("rx_1 done")
        });

        let handle_2 = tokio::spawn(async move {
            assert_eq!(rx_2.recv().await.is_err(), true);
            println!("rx_2 done")
        });

        drop(tx);
        let _ = handle_1.await;
        let _ = handle_2.await;
    });
}

#[test]
fn study_test_vec() {
    let sample = vec!["a", "b", "c"];
    let index = 2;
    println!("output: {:?}", &sample[0..index]);
}

#[test]
fn study_test_vec_chunks() {
    let sample: Vec<&str> = vec!["a", "b", "c", "d", "e"];
    let collects: Vec<&[&str]> = sample.chunks(2).collect();
    for item in collects {
        println!("output: {:?}", item);
    }
}

#[test]
fn study_test_option() {
    let mut v: Option<String> = None;
    println!("output: {:?}", &v);

    v.replace(String::from("Hello"));
    println!("output: {:?}", &v);
}

#[test]
fn study_test_smart_pointer_box() {
    let array = vec!["a", "b", "c"];
    let mut value = Box::new(array);

    println!("box before update: {:?}", &value);

    value.push("d");
    value.push("e");

    println!("box after update: {:?}", &value);
}

#[test]
fn study_test_tokio_select() {}

#[test]
fn study_tokio_broadcast_test() {
    let runtime = tokio::runtime::Runtime::new().unwrap();
    runtime.block_on(async {
        let (tx, _) = tokio::sync::broadcast::channel::<String>(16);
        let mut rx_1 = tx.subscribe();
        let mut rx_2 = tx.subscribe();

        let handle_1 = tokio::spawn(async move {
            assert_eq!(rx_1.recv().await.is_err(), true);
            println!("rx_1 done")
        });

        let handle_2 = tokio::spawn(async move {
            assert_eq!(rx_2.recv().await.is_err(), true);
            println!("rx_2 done")
        });

        drop(tx);
        let _ = handle_1.await;
        let _ = handle_2.await;
    });
}
